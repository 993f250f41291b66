use id_wrapper::config::{ConfigError, GenerateArgs};
use id_wrapper::model::{ImplBlock, MethodDef, SelfType};
use id_wrapper::synth::{derive_trait_name, generate, generate_overwrites};

fn method(
    name: &str,
    is_public: bool,
    has_skip: bool,
    has_overwrite: bool,
    attrs: &str,
    signature: &str,
) -> MethodDef {
    MethodDef {
        name: name.to_string(),
        is_public,
        has_skip,
        has_overwrite,
        attrs: attrs.to_string(),
        signature: signature.to_string(),
    }
}

fn counter_source() -> String {
    "impl Counter {\n    pub fn tick(&mut self) { self.n += 1; }\n    pub fn tick_by(&mut self, n: usize) { self.n += n; }\n}".to_string()
}

fn counter_block(methods: Vec<MethodDef>) -> ImplBlock {
    ImplBlock {
        self_ty: SelfType::Named { name: "Counter".to_string() },
        generics: String::new(),
        where_clause: String::new(),
        methods,
        source: counter_source(),
    }
}

#[test]
fn default_policy_selects_public_methods_not_marked_skip() {
    let b = counter_block(vec![
        method("tick", true, true, false, "#[skip]", "fn tick(&mut self)"),
        method("tick_by", true, false, false, "", "fn tick_by(&mut self, n: usize)"),
    ]);
    let out = generate_overwrites("", &b).unwrap();
    let expected = format!(
        "pub trait CounterOverwrites {{\n    fn tick_by(&mut self, n: usize);\n}}\n\n{}",
        counter_source()
    );
    assert_eq!(out, expected);
}

#[test]
fn opt_in_policy_selects_public_methods_marked_overwrite() {
    let b = counter_block(vec![
        method("tick", true, false, false, "", "fn tick(&mut self)"),
        method(
            "tick_by",
            true,
            false,
            true,
            "#[overwrite]",
            "fn tick_by(&mut self, n: usize)",
        ),
    ]);
    let out = generate_overwrites("all = false", &b).unwrap();
    let expected = format!(
        "pub trait CounterOverwrites {{\n    #[overwrite]\n    fn tick_by(&mut self, n: usize);\n}}\n\n{}",
        counter_source()
    );
    assert_eq!(out, expected);
}

#[test]
fn all_methods_skipped_emits_block_alone() {
    let b = counter_block(vec![
        method("tick", true, true, false, "#[skip]", "fn tick(&mut self)"),
        method(
            "tick_by",
            true,
            true,
            false,
            "#[skip]",
            "fn tick_by(&mut self, n: usize)",
        ),
    ]);
    let out = generate_overwrites("", &b).unwrap();
    assert_eq!(out, counter_source());
}

#[test]
fn unnamed_self_type_emits_block_alone() {
    let b = ImplBlock {
        self_ty: SelfType::Other,
        generics: String::new(),
        where_clause: String::new(),
        methods: vec![method("tick", true, false, false, "", "fn tick(&mut self)")],
        source: "impl (u8, u8) {\n    pub fn tick(&mut self) {}\n}".to_string(),
    };
    let out = generate_overwrites("", &b).unwrap();
    assert_eq!(out, "impl (u8, u8) {\n    pub fn tick(&mut self) {}\n}");
}

#[test]
fn non_public_methods_never_selected() {
    let b = counter_block(vec![
        method(
            "hidden",
            false,
            false,
            true,
            "#[overwrite]",
            "fn hidden(&self)",
        ),
        method("also_hidden", false, false, false, "", "fn also_hidden(&self)"),
    ]);
    let under_default = generate_overwrites("", &b).unwrap();
    assert_eq!(under_default, counter_source());
    let under_opt_in = generate_overwrites("all = false", &b).unwrap();
    assert_eq!(under_opt_in, counter_source());
}

#[test]
fn stubs_keep_declaration_order() {
    let b = counter_block(vec![
        method("a", true, false, false, "", "fn a(&self)"),
        method("b", true, false, false, "", "fn b(&self)"),
        method("c", true, false, false, "", "fn c(&self)"),
    ]);
    let out = generate_overwrites("", &b).unwrap();
    let expected = format!(
        "pub trait CounterOverwrites {{\n    fn a(&self);\n    fn b(&self);\n    fn c(&self);\n}}\n\n{}",
        counter_source()
    );
    assert_eq!(out, expected);
}

#[test]
fn generics_and_where_clause_carry_over() {
    let b = ImplBlock {
        self_ty: SelfType::Named { name: "Holder".to_string() },
        generics: "<T: Clone>".to_string(),
        where_clause: "where T: Send".to_string(),
        methods: vec![method("get", true, false, false, "", "fn get(&self) -> T")],
        source: "impl<T: Clone> Holder<T> where T: Send {\n    pub fn get(&self) -> T { self.v.clone() }\n}".to_string(),
    };
    let out = generate_overwrites("", &b).unwrap();
    let expected = format!(
        "pub trait HolderOverwrites<T: Clone> where T: Send {{\n    fn get(&self) -> T;\n}}\n\n{}",
        b.source
    );
    assert_eq!(out, expected);
}

#[test]
fn unknown_key_is_rejected_before_any_output() {
    let b = counter_block(vec![method("tick", true, false, false, "", "fn tick(&mut self)")]);
    let out = generate_overwrites("foo = true", &b);
    assert!(matches!(out, Err(ConfigError::UnknownKey)));
    let later = generate_overwrites("all = true, foo = true", &b);
    assert!(matches!(later, Err(ConfigError::UnknownKey)));
}

#[test]
fn bad_value_is_rejected() {
    let b = counter_block(vec![method("tick", true, false, false, "", "fn tick(&mut self)")]);
    let out = generate_overwrites("all = yes", &b);
    assert!(matches!(out, Err(ConfigError::BadValue)));
    let quoted = generate_overwrites("all = \"yes\"", &b);
    assert!(matches!(quoted, Err(ConfigError::BadValue)));
}

#[test]
fn missing_equals_sign_is_rejected() {
    assert!(matches!(GenerateArgs::parse("all"), Err(ConfigError::Syntax)));
    assert!(matches!(GenerateArgs::parse("= true"), Err(ConfigError::Syntax)));
}

#[test]
fn empty_configuration_leaves_the_default() {
    let args = GenerateArgs::parse("").unwrap();
    assert!(args.all);
    let spaced = GenerateArgs::parse("   ").unwrap();
    assert!(spaced.all);
}

#[test]
fn explicit_policy_values_parse() {
    assert!(GenerateArgs::parse("all = true").unwrap().all);
    assert!(!GenerateArgs::parse("all = false").unwrap().all);
    assert!(!GenerateArgs::parse("all=false").unwrap().all);
    assert!(!GenerateArgs::parse("all = false,").unwrap().all);
}

#[test]
fn last_written_policy_value_wins() {
    assert!(GenerateArgs::parse("all = false, all = true").unwrap().all);
    assert!(!GenerateArgs::parse("all = true, all = false").unwrap().all);
}

#[test]
fn trait_name_comes_from_terminal_segment() {
    let named = derive_trait_name(&SelfType::Named { name: "Counter".to_string() });
    assert_eq!(named.unwrap(), "CounterOverwrites");
    let other = derive_trait_name(&SelfType::Other);
    assert!(other.is_none());
}

#[test]
fn generate_takes_resolved_policy() {
    let b = counter_block(vec![
        method("tick", true, false, true, "#[overwrite]", "fn tick(&mut self)"),
    ]);
    let out = generate(&b, &GenerateArgs { all: false });
    let expected = format!(
        "pub trait CounterOverwrites {{\n    #[overwrite]\n    fn tick(&mut self);\n}}\n\n{}",
        counter_source()
    );
    assert_eq!(out, expected);
}
