//! The AST data model of the task-definition language: a program is an
//! ordered sequence of items (aliases, assignments, comments, recipes,
//! settings directives) plus an ordered sequence of opaque warnings. All
//! values are built once by a parser and never mutated; the serializer in
//! this crate only reads them.

use vstd::prelude::*;

verus! {

/// A whole program: its items in source order, and the warnings collected
/// while it was built. Warnings are reporting-only: they are never rendered
/// to a canonical tree.
pub struct Ast {
    pub items: Vec<Item>,
    pub warnings: Vec<Warning>,
}

/// An opaque diagnostic. It carries no renderable structure: asking for its
/// canonical tree is a contract violation and fails loudly.
pub struct Warning {}

/// The failure a rendering request can report: the value handed in still
/// held warnings, which never have a canonical tree form.
#[derive(Debug, PartialEq, Eq)]
pub enum TreeError {
    WarningPresent,
}

/// One top-level item of a program, in source order.
pub enum Item {
    Alias(Alias),
    Assignment(Assignment),
    Comment(String),
    Recipe(Recipe),
    Setting(SetDirective),
}

/// An alias: a second name for an existing recipe.
pub struct Alias {
    pub name: String,
    pub target: String,
}

/// A variable assignment, optionally exported to the environment.
pub struct Assignment {
    pub export: bool,
    pub name: String,
    pub value: Expression,
}

/// The comparison operator of a conditional expression.
pub enum ComparisonOperator {
    Equal,
    NotEqual,
    Match,
}

/// An expression of the language's irregular expression grammar.
pub enum Expression {
    /// Two expressions joined with `+`.
    Concatenation { lhs: Box<Expression>, rhs: Box<Expression> },
    /// `if lhs <op> rhs { then_branch } else { otherwise }`.
    Conditional {
        lhs: Box<Expression>,
        rhs: Box<Expression>,
        then_branch: Box<Expression>,
        otherwise: Box<Expression>,
        operator: ComparisonOperator,
    },
    /// A built-in function call, in one of six fixed arity shapes.
    Call { thunk: Thunk },
    /// A variable reference.
    Variable { name: String },
    /// A string literal, escape-processed ("cooked") upstream.
    StringLiteral { cooked: String },
    /// A shell-capture expression, held as its literal text.
    Backtick { contents: String },
    /// A parenthesized sub-expression.
    Group { contents: Box<Expression> },
    /// The path-join operator; an absent left operand means a leading,
    /// root-relative join.
    Join { lhs: Option<Box<Expression>>, rhs: Box<Expression> },
}

/// The six arity shapes a built-in function call can take. The sum type
/// forces every consumer to match exhaustively, so a new shape cannot be
/// added without updating the serializer.
pub enum Thunk {
    Nullary { name: String },
    Unary { name: String, arg: Box<Expression> },
    /// One required argument and one optional argument.
    UnaryOpt { name: String, arg: Box<Expression>, opt: Option<Box<Expression>> },
    Binary { name: String, a: Box<Expression>, b: Box<Expression> },
    /// Two required arguments and any number of further ones, in order.
    BinaryPlus { name: String, a: Box<Expression>, b: Box<Expression>, rest: Vec<Expression> },
    Ternary { name: String, a: Box<Expression>, b: Box<Expression>, c: Box<Expression> },
}

/// A named, parameterized unit of work with declared dependencies and an
/// ordered shell-command body.
pub struct Recipe {
    pub quiet: bool,
    pub doc: Option<String>,
    pub name: String,
    pub parameters: Vec<Parameter>,
    pub dependencies: Vec<Dependency>,
    /// How many leading dependencies are prior (must complete before the
    /// body runs); the remainder are subsequent (run after it).
    pub priors: usize,
    pub body: Vec<Line>,
}

impl Recipe {
    /// The model invariant a parser establishes: the prior count never
    /// exceeds the number of dependencies.
    pub open spec fn wf(self) -> bool {
        self.priors <= self.dependencies@.len()
    }
}

/// A dependency on another recipe, with argument expressions.
pub struct Dependency {
    pub recipe: String,
    pub arguments: Vec<Expression>,
}

/// The kind of a recipe parameter, which determines an optional rendering
/// prefix token.
pub enum ParameterKind {
    /// An ordinary parameter: no prefix.
    Normal,
    /// Variadic with at least zero values: prefix `*`.
    Star,
    /// Variadic with at least one value: prefix `+`.
    Plus,
    /// Exported to the environment: prefix `$`.
    Export,
}

/// A recipe parameter, possibly with a default expression.
pub struct Parameter {
    pub name: String,
    pub default: Option<Expression>,
    pub kind: ParameterKind,
}

/// One line of a recipe body: an ordered sequence of fragments.
pub struct Line {
    pub fragments: Vec<Fragment>,
}

/// A body-line segment: literal text, or an expression to substitute.
pub enum Fragment {
    Text { text: String },
    Interpolation { expression: Expression },
}

/// A settings directive: `set <name> ...` with its payload.
pub struct SetDirective {
    pub name: String,
    pub value: Setting,
}

/// The payload of a settings directive: seven boolean-valued settings, a
/// structured shell command (in two flavours), and three string-valued
/// settings.
pub enum Setting {
    AllowDuplicateRecipes(bool),
    DotenvLoad(bool),
    Export(bool),
    Fallback(bool),
    PositionalArguments(bool),
    WindowsPowerShell(bool),
    IgnoreComments(bool),
    Shell(Shell),
    WindowsShell(Shell),
    DotenvFilename(String),
    DotenvPath(String),
    Tempdir(String),
}

/// A shell command with its arguments, as a settings payload.
pub struct Shell {
    pub command: String,
    pub arguments: Vec<String>,
}

impl Item {
    /// Every recipe item satisfies the recipe model invariant.
    pub open spec fn wf(self) -> bool {
        match self {
            Item::Recipe(recipe) => recipe.wf(),
            _ => true,
        }
    }
}

impl Ast {
    /// Every item of the program satisfies its model invariant.
    pub open spec fn wf(self) -> bool {
        forall|i: int| 0 <= i < self.items@.len() ==> (#[trigger] self.items@[i]).wf()
    }
}

} // verus!
