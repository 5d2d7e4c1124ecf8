use recipe_tree::ast::{
    Alias, Assignment, Ast, ComparisonOperator, Dependency, Expression, Fragment, Item, Line,
    Parameter, ParameterKind, Recipe, SetDirective, Setting, Shell, Thunk, TreeError, Warning,
};
use recipe_tree::node::{bool_str, render_comment, snake_case};
use recipe_tree::tree::Tree;

fn atom(s: &str) -> Tree {
    Tree::Atom(s.to_string())
}

fn list(children: Vec<Tree>) -> Tree {
    Tree::List(children)
}

fn var(name: &str) -> Expression {
    Expression::Variable {
        name: name.to_string(),
    }
}

fn empty_recipe(name: &str) -> Recipe {
    Recipe {
        quiet: false,
        doc: None,
        name: name.to_string(),
        parameters: Vec::new(),
        dependencies: Vec::new(),
        priors: 0,
        body: Vec::new(),
    }
}

fn dep(name: &str, arguments: Vec<Expression>) -> Dependency {
    Dependency {
        recipe: name.to_string(),
        arguments,
    }
}

#[test]
fn leading_join_renders_root_relative() {
    let e = Expression::Join {
        lhs: None,
        rhs: Box::new(var("x")),
    };
    assert_eq!(e.tree(), list(vec![atom("/"), atom("x")]));
}

#[test]
fn join_with_both_operands() {
    let e = Expression::Join {
        lhs: Some(Box::new(var("a"))),
        rhs: Box::new(var("b")),
    };
    assert_eq!(e.tree(), list(vec![atom("/"), atom("a"), atom("b")]));
}

#[test]
fn recipe_with_one_subsequent_dependency() {
    let mut r = empty_recipe("build");
    r.dependencies = vec![dep("setup", Vec::new())];
    r.priors = 0;
    assert_eq!(
        r.tree(),
        list(vec![
            atom("recipe"),
            atom("build"),
            list(vec![atom("sups"), list(vec![atom("setup")])]),
        ])
    );
}

#[test]
fn dotenv_load_setting_snake_cases_its_name() {
    let s = SetDirective {
        name: "dotenv-load".to_string(),
        value: Setting::DotenvLoad(true),
    };
    assert_eq!(s.tree(), list(vec![atom("set"), atom("dotenv_load"), atom("true")]));
}

#[test]
fn binary_plus_call_flattens_rest_arguments() {
    let e = Expression::Call {
        thunk: Thunk::BinaryPlus {
            name: "f".to_string(),
            a: Box::new(var("a")),
            b: Box::new(var("b")),
            rest: vec![var("c")],
        },
    };
    assert_eq!(
        e.tree(),
        list(vec![atom("call"), atom("f"), atom("a"), atom("b"), atom("c")])
    );
}

#[test]
fn comment_text_is_quoted() {
    assert_eq!(
        render_comment("hi"),
        list(vec![atom("comment"), atom("\"hi\"")])
    );
}

#[test]
fn rendering_twice_is_deterministic() {
    let p = Ast {
        items: vec![
            Item::Alias(Alias {
                name: "b".to_string(),
                target: "build".to_string(),
            }),
            Item::Comment("note".to_string()),
            Item::Recipe(empty_recipe("build")),
        ],
        warnings: Vec::new(),
    };
    let first = p.tree().unwrap();
    let second = p.tree().unwrap();
    assert_eq!(first, second);
}

#[test]
fn dependency_partition_preserves_order() {
    let mut r = empty_recipe("deploy");
    r.dependencies = vec![
        dep("fetch", Vec::new()),
        dep("build", Vec::new()),
        dep("notify", Vec::new()),
    ];
    r.priors = 2;
    assert_eq!(
        r.tree(),
        list(vec![
            atom("recipe"),
            atom("deploy"),
            list(vec![
                atom("deps"),
                list(vec![atom("fetch")]),
                list(vec![atom("build")]),
            ]),
            list(vec![atom("sups"), list(vec![atom("notify")])]),
        ])
    );
}

#[test]
fn all_priors_renders_no_sups_node() {
    let mut r = empty_recipe("deploy");
    r.dependencies = vec![dep("a", Vec::new()), dep("b", Vec::new())];
    r.priors = 2;
    assert_eq!(
        r.tree(),
        list(vec![
            atom("recipe"),
            atom("deploy"),
            list(vec![
                atom("deps"),
                list(vec![atom("a")]),
                list(vec![atom("b")]),
            ]),
        ])
    );
}

#[test]
fn empty_recipe_renders_only_its_name() {
    let r = empty_recipe("tidy");
    assert_eq!(r.tree(), list(vec![atom("recipe"), atom("tidy")]));
}

#[test]
fn unary_opt_without_optional_argument() {
    let e = Expression::Call {
        thunk: Thunk::UnaryOpt {
            name: "env".to_string(),
            arg: Box::new(var("k")),
            opt: None,
        },
    };
    let t = e.tree();
    assert_eq!(t, list(vec![atom("call"), atom("env"), atom("k")]));
}

#[test]
fn unary_opt_with_optional_argument() {
    let e = Expression::Call {
        thunk: Thunk::UnaryOpt {
            name: "env".to_string(),
            arg: Box::new(var("k")),
            opt: Some(Box::new(var("d"))),
        },
    };
    let t = e.tree();
    assert_eq!(t, list(vec![atom("call"), atom("env"), atom("k"), atom("d")]));
}

#[test]
fn warning_never_renders() {
    let w = Warning {};
    assert_eq!(w.tree(), Err(TreeError::WarningPresent));
}

#[test]
fn program_with_warnings_fails_loudly() {
    let p = Ast {
        items: Vec::new(),
        warnings: vec![Warning {}],
    };
    assert_eq!(p.tree(), Err(TreeError::WarningPresent));
}

#[test]
fn program_without_warnings_renders() {
    let p = Ast {
        items: Vec::new(),
        warnings: Vec::new(),
    };
    assert_eq!(p.tree(), Ok(list(vec![atom("justfile")])));
}

#[test]
fn alias_renders_name_then_target() {
    let a = Alias {
        name: "b".to_string(),
        target: "build".to_string(),
    };
    assert_eq!(a.tree(), list(vec![atom("alias"), atom("b"), atom("build")]));
}

#[test]
fn plain_assignment() {
    let a = Assignment {
        export: false,
        name: "version".to_string(),
        value: Expression::StringLiteral {
            cooked: "1.2".to_string(),
        },
    };
    assert_eq!(
        a.tree(),
        list(vec![atom("assignment"), atom("version"), atom("\"1.2\"")])
    );
}

#[test]
fn exported_assignment_carries_markers() {
    let a = Assignment {
        export: true,
        name: "home".to_string(),
        value: var("h"),
    };
    assert_eq!(
        a.tree(),
        list(vec![
            atom("assignment"),
            atom("#"),
            atom("export"),
            atom("home"),
            atom("h"),
        ])
    );
}

#[test]
fn concatenation_renders_plus_prefix() {
    let e = Expression::Concatenation {
        lhs: Box::new(var("a")),
        rhs: Box::new(var("b")),
    };
    assert_eq!(e.tree(), list(vec![atom("+"), atom("a"), atom("b")]));
}

#[test]
fn conditional_renders_operator_text() {
    let e = Expression::Conditional {
        lhs: Box::new(var("a")),
        rhs: Box::new(var("b")),
        then_branch: Box::new(Expression::StringLiteral {
            cooked: "t".to_string(),
        }),
        otherwise: Box::new(var("d")),
        operator: ComparisonOperator::NotEqual,
    };
    assert_eq!(
        e.tree(),
        list(vec![
            atom("if"),
            atom("a"),
            atom("!="),
            atom("b"),
            atom("\"t\""),
            atom("d"),
        ])
    );
}

#[test]
fn comparison_operator_lexemes() {
    assert_eq!(ComparisonOperator::Equal.text(), "==");
    assert_eq!(ComparisonOperator::NotEqual.text(), "!=");
    assert_eq!(ComparisonOperator::Match.text(), "=~");
}

#[test]
fn backtick_renders_quoted_contents() {
    let e = Expression::Backtick {
        contents: "ls -l".to_string(),
    };
    assert_eq!(e.tree(), list(vec![atom("backtick"), atom("\"ls -l\"")]));
}

#[test]
fn group_wraps_child_in_one_element_list() {
    let e = Expression::Group {
        contents: Box::new(var("x")),
    };
    assert_eq!(e.tree(), list(vec![atom("x")]));
}

#[test]
fn nullary_unary_binary_ternary_calls() {
    let nullary = Expression::Call {
        thunk: Thunk::Nullary {
            name: "os".to_string(),
        },
    };
    assert_eq!(nullary.tree(), list(vec![atom("call"), atom("os")]));

    let unary = Expression::Call {
        thunk: Thunk::Unary {
            name: "upper".to_string(),
            arg: Box::new(var("x")),
        },
    };
    assert_eq!(unary.tree(), list(vec![atom("call"), atom("upper"), atom("x")]));

    let binary = Expression::Call {
        thunk: Thunk::Binary {
            name: "join".to_string(),
            a: Box::new(var("x")),
            b: Box::new(var("y")),
        },
    };
    assert_eq!(
        binary.tree(),
        list(vec![atom("call"), atom("join"), atom("x"), atom("y")])
    );

    let ternary = Expression::Call {
        thunk: Thunk::Ternary {
            name: "replace".to_string(),
            a: Box::new(var("x")),
            b: Box::new(var("y")),
            c: Box::new(var("z")),
        },
    };
    assert_eq!(
        ternary.tree(),
        list(vec![atom("call"), atom("replace"), atom("x"), atom("y"), atom("z")])
    );
}

#[test]
fn recipe_with_quiet_doc_params_and_body() {
    let r = Recipe {
        quiet: true,
        doc: Some("builds it".to_string()),
        name: "build".to_string(),
        parameters: vec![
            Parameter {
                name: "target".to_string(),
                default: None,
                kind: ParameterKind::Normal,
            },
            Parameter {
                name: "flags".to_string(),
                default: Some(Expression::StringLiteral {
                    cooked: "-v".to_string(),
                }),
                kind: ParameterKind::Star,
            },
        ],
        dependencies: Vec::new(),
        priors: 0,
        body: vec![Line {
            fragments: vec![
                Fragment::Text {
                    text: "echo ".to_string(),
                },
                Fragment::Interpolation {
                    expression: var("target"),
                },
            ],
        }],
    };
    assert_eq!(
        r.tree(),
        list(vec![
            atom("recipe"),
            atom("#"),
            atom("quiet"),
            atom("\"builds it\""),
            atom("build"),
            list(vec![
                atom("params"),
                list(vec![atom("target")]),
                atom("*"),
                list(vec![atom("flags"), atom("\"-v\"")]),
            ]),
            list(vec![
                atom("body"),
                list(vec![atom("\"echo \""), list(vec![atom("target")])]),
            ]),
        ])
    );
}

#[test]
fn parameter_kind_prefixes() {
    assert_eq!(ParameterKind::Normal.prefix(), None);
    assert_eq!(ParameterKind::Star.prefix(), Some("*"));
    assert_eq!(ParameterKind::Plus.prefix(), Some("+"));
    assert_eq!(ParameterKind::Export.prefix(), Some("$"));
}

#[test]
fn dependency_arguments_render_in_order() {
    let mut r = empty_recipe("test");
    r.dependencies = vec![dep("build", vec![var("a"), var("b")])];
    r.priors = 1;
    assert_eq!(
        r.tree(),
        list(vec![
            atom("recipe"),
            atom("test"),
            list(vec![
                atom("deps"),
                list(vec![atom("build"), atom("a"), atom("b")]),
            ]),
        ])
    );
}

#[test]
fn shell_setting_quotes_command_and_arguments() {
    let s = SetDirective {
        name: "shell".to_string(),
        value: Setting::Shell(Shell {
            command: "bash".to_string(),
            arguments: vec!["-c".to_string(), "-u".to_string()],
        }),
    };
    assert_eq!(
        s.tree(),
        list(vec![
            atom("set"),
            atom("shell"),
            atom("\"bash\""),
            atom("\"-c\""),
            atom("\"-u\""),
        ])
    );
}

#[test]
fn windows_shell_setting_renders_like_shell() {
    let s = SetDirective {
        name: "windows-shell".to_string(),
        value: Setting::WindowsShell(Shell {
            command: "powershell".to_string(),
            arguments: Vec::new(),
        }),
    };
    assert_eq!(
        s.tree(),
        list(vec![atom("set"), atom("windows_shell"), atom("\"powershell\"")])
    );
}

#[test]
fn string_valued_settings_are_quoted() {
    let s = SetDirective {
        name: "tempdir".to_string(),
        value: Setting::Tempdir("/tmp".to_string()),
    };
    assert_eq!(s.tree(), list(vec![atom("set"), atom("tempdir"), atom("\"/tmp\"")]));
}

#[test]
fn false_boolean_setting_renders_false() {
    let s = SetDirective {
        name: "fallback".to_string(),
        value: Setting::Fallback(false),
    };
    assert_eq!(s.tree(), list(vec![atom("set"), atom("fallback"), atom("false")]));
}

#[test]
fn bool_text_values() {
    assert_eq!(bool_str(true), "true");
    assert_eq!(bool_str(false), "false");
}

#[test]
fn snake_case_replaces_every_dash() {
    assert_eq!(snake_case("allow-duplicate-recipes"), "allow_duplicate_recipes");
    assert_eq!(snake_case("plain"), "plain");
    assert_eq!(snake_case(""), "");
}

#[test]
fn whole_program_renders_items_in_order() {
    let p = Ast {
        items: vec![
            Item::Comment("header".to_string()),
            Item::Setting(SetDirective {
                name: "export".to_string(),
                value: Setting::Export(true),
            }),
            Item::Recipe(empty_recipe("all")),
        ],
        warnings: Vec::new(),
    };
    assert_eq!(
        p.tree(),
        Ok(list(vec![
            atom("justfile"),
            list(vec![atom("comment"), atom("\"header\"")]),
            list(vec![atom("set"), atom("export"), atom("true")]),
            list(vec![atom("recipe"), atom("all")]),
        ]))
    );
}

#[test]
fn push_appends_to_a_list() {
    let t = Tree::list(vec![atom("a")]).push(atom("b"));
    assert_eq!(t, list(vec![atom("a"), atom("b")]));
}

#[test]
fn push_promotes_an_atom() {
    let t = Tree::atom("a").push(atom("b"));
    assert_eq!(t, list(vec![atom("a"), atom("b")]));
}

#[test]
fn extend_appends_each_child_in_order() {
    let t = Tree::atom("a").extend(vec![atom("b"), atom("c")]);
    assert_eq!(t, list(vec![atom("a"), atom("b"), atom("c")]));
    let unchanged = Tree::atom("a").extend(Vec::new());
    assert_eq!(unchanged, atom("a"));
}

#[test]
fn structural_equality_is_deep_and_order_sensitive() {
    let a = list(vec![atom("x"), list(vec![atom("y"), atom("z")])]);
    let b = list(vec![atom("x"), list(vec![atom("y"), atom("z")])]);
    let swapped = list(vec![atom("x"), list(vec![atom("z"), atom("y")])]);
    let shorter = list(vec![atom("x")]);
    assert!(a.structural_eq(&b));
    assert!(!a.structural_eq(&swapped));
    assert!(!a.structural_eq(&shorter));
    assert!(!atom("x").structural_eq(&list(vec![atom("x")])));
}

#[test]
fn quoting_adds_no_internal_escaping() {
    let t = Tree::string("say \"hi\"");
    assert_eq!(t, atom("\"say \"hi\"\""));
}
