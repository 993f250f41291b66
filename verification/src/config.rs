//! Parsing of the generator's configuration list: a comma-separated
//! sequence of `key = value` pairs, of which the single recognized key is
//! `all`, a boolean that selects the method-selection policy. An omitted
//! list leaves the default, `all = true`. An unrecognized key or a value
//! that is not a boolean literal rejects the whole invocation.

use vstd::prelude::*;

verus! {

/// The resolved configuration of one generator invocation.
pub struct GenerateArgs {
    pub all: bool,
}

/// Rejection of a configuration list: an unrecognized key, a value that
/// is not a boolean literal for the key `all`, or text that is not a
/// `key = value` list at all.
#[derive(Debug)]
pub enum ConfigError {
    UnknownKey,
    BadValue,
    Syntax,
}

/// Whitespace between configuration tokens.
pub open spec fn is_ws_char(c: char) -> bool {
    c == ' ' || c == '\t' || c == '\n' || c == '\r'
}

/// A character that may start an identifier.
pub open spec fn is_ident_start_char(c: char) -> bool {
    (97 <= c as u32 && c as u32 <= 122)  // 'a' ..= 'z'
    || (65 <= c as u32 && c as u32 <= 90)  // 'A' ..= 'Z'
    || c == '_'
}

/// A character that may continue an identifier.
pub open spec fn is_ident_char(c: char) -> bool {
    is_ident_start_char(c) || (48 <= c as u32 && c as u32 <= 57)  // '0' ..= '9'
}

/// The first position at or after `i` that does not hold whitespace.
pub open spec fn skip_ws_idx(s: Seq<char>, i: int) -> int
    decreases s.len() - i,
{
    if i >= s.len() {
        s.len() as int
    } else if 0 <= i && is_ws_char(s[i]) {
        skip_ws_idx(s, i + 1)
    } else {
        i
    }
}

/// The first position at or after `i` that does not hold an identifier
/// character: the end of the identifier run starting at `i`.
pub open spec fn ident_end_idx(s: Seq<char>, i: int) -> int
    decreases s.len() - i,
{
    if i >= s.len() {
        s.len() as int
    } else if 0 <= i && is_ident_char(s[i]) {
        ident_end_idx(s, i + 1)
    } else {
        i
    }
}

pub proof fn lemma_skip_ws_idx_bounds(s: Seq<char>, i: int)
    requires
        0 <= i <= s.len(),
    ensures
        i <= skip_ws_idx(s, i) <= s.len(),
    decreases s.len() - i,
{
    if i < s.len() && is_ws_char(s[i]) {
        lemma_skip_ws_idx_bounds(s, i + 1);
    }
}

pub proof fn lemma_ident_end_idx_bounds(s: Seq<char>, i: int)
    requires
        0 <= i <= s.len(),
    ensures
        i <= ident_end_idx(s, i) <= s.len(),
    decreases s.len() - i,
{
    if i < s.len() && is_ident_char(s[i]) {
        lemma_ident_end_idx_bounds(s, i + 1);
    }
}

/// The meaning of the configuration text from position `i` on, with `all`
/// resolved so far to `acc`: pairs `key = value`, each optionally followed
/// by a comma, are read in turn; the last value written to `all` wins.
/// The recognized key is `all` alone, and its value must be the literal
/// `true` or `false`.
pub open spec fn parse_from(s: Seq<char>, i: int, acc: bool) -> Result<bool, ConfigError>
    decreases s.len() - i,
    when 0 <= i <= s.len()
{
    let j = skip_ws_idx(s, i);
    if j >= s.len() {
        Ok(acc)
    } else if !is_ident_start_char(s[j]) {
        Err(ConfigError::Syntax)
    } else {
        let k = ident_end_idx(s, j + 1);
        let e = skip_ws_idx(s, k);
        if e >= s.len() || s[e] != '=' {
            Err(ConfigError::Syntax)
        } else if s.subrange(j, k) != "all"@ {
            Err(ConfigError::UnknownKey)
        } else {
            let v = skip_ws_idx(s, e + 1);
            let w = ident_end_idx(s, v);
            let tok = s.subrange(v, w);
            if tok == "true"@ || tok == "false"@ {
                let b = (tok == "true"@);
                let p = skip_ws_idx(s, w);
                proof {
                    lemma_skip_ws_idx_bounds(s, i);
                    lemma_ident_end_idx_bounds(s, j + 1);
                    lemma_skip_ws_idx_bounds(s, k);
                    lemma_skip_ws_idx_bounds(s, e + 1);
                    lemma_ident_end_idx_bounds(s, v);
                    lemma_skip_ws_idx_bounds(s, w);
                }
                if p < s.len() && s[p] == ',' {
                    parse_from(s, p + 1, b)
                } else {
                    parse_from(s, p, b)
                }
            } else {
                Err(ConfigError::BadValue)
            }
        }
    }
}

/// The meaning of a whole configuration text: the `all` policy it
/// resolves to, or the rejection it earns.
pub open spec fn parse_config(s: Seq<char>) -> Result<GenerateArgs, ConfigError> {
    match parse_from(s, 0, true) {
        Ok(b) => Ok(GenerateArgs { all: b }),
        Err(e) => Err(e),
    }
}

/// Law: wherever the parse has reached, a pair whose key is not `all` is
/// rejected with the unknown-key error, whatever its value and whatever
/// follows it. Every pair of the text is reached this way unless an
/// earlier pair was already rejected, so a parse that succeeds read no
/// key but `all`.
pub proof fn lemma_unknown_key_rejected(s: Seq<char>, i: int, acc: bool)
    requires
        0 <= i <= s.len(),
        skip_ws_idx(s, i) < s.len(),
        is_ident_start_char(s[skip_ws_idx(s, i)]),
        ({
            let j = skip_ws_idx(s, i);
            let k = ident_end_idx(s, j + 1);
            let e = skip_ws_idx(s, k);
            e < s.len() && s[e] == '=' && s.subrange(j, k) != "all"@
        }),
    ensures
        parse_from(s, i, acc) == Err::<bool, ConfigError>(ConfigError::UnknownKey),
{
}

/// Law: a configuration text whose first pair carries an unrecognized
/// key is rejected as a whole with the unknown-key error, so the
/// generator that consults `parse_config` emits nothing for it.
pub proof fn lemma_unknown_first_key_rejects_config(s: Seq<char>)
    requires
        skip_ws_idx(s, 0) < s.len(),
        is_ident_start_char(s[skip_ws_idx(s, 0)]),
        ({
            let j = skip_ws_idx(s, 0);
            let k = ident_end_idx(s, j + 1);
            let e = skip_ws_idx(s, k);
            e < s.len() && s[e] == '=' && s.subrange(j, k) != "all"@
        }),
    ensures
        parse_config(s) == Err::<GenerateArgs, ConfigError>(ConfigError::UnknownKey),
{
    lemma_unknown_key_rejected(s, 0, true);
}

fn is_ws(c: char) -> (r: bool)
    ensures
        r == is_ws_char(c),
{
    c == ' ' || c == '\t' || c == '\n' || c == '\r'
}

fn is_ident_start(c: char) -> (r: bool)
    ensures
        r == is_ident_start_char(c),
{
    let u = c as u32;
    (97 <= u && u <= 122) || (65 <= u && u <= 90) || c == '_'
}

fn is_ident(c: char) -> (r: bool)
    ensures
        r == is_ident_char(c),
{
    let u = c as u32;
    is_ident_start(c) || (48 <= u && u <= 57)
}

fn skip_ws(s: &str, i: usize) -> (r: usize)
    requires
        i <= s@.len(),
    ensures
        r == skip_ws_idx(s@, i as int),
        i <= r <= s@.len(),
    decreases s@.len() - i,
{
    let n = s.unicode_len();
    if i >= n {
        n
    } else if is_ws(s.get_char(i)) {
        skip_ws(s, i + 1)
    } else {
        i
    }
}

fn ident_run_end(s: &str, i: usize) -> (r: usize)
    requires
        i <= s@.len(),
    ensures
        r == ident_end_idx(s@, i as int),
        i <= r <= s@.len(),
    decreases s@.len() - i,
{
    let n = s.unicode_len();
    if i >= n {
        n
    } else if is_ident(s.get_char(i)) {
        ident_run_end(s, i + 1)
    } else {
        i
    }
}

/// Whether the characters of `s` from `from` to `to` read exactly as `w`.
fn range_matches(s: &str, from: usize, to: usize, w: &str) -> (r: bool)
    requires
        from <= to <= s@.len(),
    ensures
        r <==> s@.subrange(from as int, to as int) == w@,
{
    let wl = w.unicode_len();
    if to - from != wl {
        assert(s@.subrange(from as int, to as int).len() != w@.len());
        return false;
    }
    let mut q: usize = 0;
    while q < wl
        invariant
            q <= wl,
            wl == w@.len(),
            from + wl == to <= s@.len(),
            forall|t: int| 0 <= t < q ==> s@[from + t] == w@[t],
        decreases wl - q,
    {
        if s.get_char(from + q) != w.get_char(q) {
            assert(s@.subrange(from as int, to as int)[q as int] == s@[from + q]);
            return false;
        }
        q += 1;
    }
    assert(s@.subrange(from as int, to as int) =~= w@);
    true
}

fn parse_pairs(s: &str, i: usize, acc: bool) -> (r: Result<bool, ConfigError>)
    requires
        i <= s@.len(),
    ensures
        r == parse_from(s@, i as int, acc),
    decreases s@.len() - i,
{
    let n = s.unicode_len();
    let j = skip_ws(s, i);
    if j >= n {
        return Ok(acc);
    }
    if !is_ident_start(s.get_char(j)) {
        return Err(ConfigError::Syntax);
    }
    let k = ident_run_end(s, j + 1);
    let e = skip_ws(s, k);
    if e >= n || s.get_char(e) != '=' {
        return Err(ConfigError::Syntax);
    }
    if !range_matches(s, j, k, "all") {
        return Err(ConfigError::UnknownKey);
    }
    let v = skip_ws(s, e + 1);
    let w = ident_run_end(s, v);
    let is_true = range_matches(s, v, w, "true");
    let is_false = range_matches(s, v, w, "false");
    if !is_true && !is_false {
        return Err(ConfigError::BadValue);
    }
    let p = skip_ws(s, w);
    if p < n && s.get_char(p) == ',' {
        parse_pairs(s, p + 1, is_true)
    } else {
        parse_pairs(s, p, is_true)
    }
}

impl GenerateArgs {
    /// Resolves a configuration text to the selection policy it names,
    /// or to the rejection it earns. The empty text leaves the default
    /// policy, `all = true`.
    pub fn parse(s: &str) -> (r: Result<GenerateArgs, ConfigError>)
        ensures
            r == parse_config(s@),
    {
        match parse_pairs(s, 0, true) {
            Ok(b) => Ok(GenerateArgs { all: b }),
            Err(e) => Err(e),
        }
    }
}

} // verus!
