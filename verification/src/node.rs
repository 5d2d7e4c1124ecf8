//! The serializer: the canonical, deterministic mapping from every AST
//! entity to its canonical tree. Each entity kind has a spec function giving
//! its tree mathematically and an executable `tree` method proved to return
//! exactly that value. Rendering is total for every entity except a warning,
//! whose rendering is a defined, loud failure.

use vstd::prelude::*;
use vstd::string::StrSliceExecFns;
use vstd::string::StringExecFns;

use crate::ast::{
    Alias, Assignment, Ast, ComparisonOperator, Dependency, Expression, Fragment, Item, Line,
    Parameter, ParameterKind, Recipe, SetDirective, Setting, Shell, Thunk, TreeError, Warning,
};
use crate::tree::{lemma_seq_view_add, lemma_seq_view_is_map, lemma_seq_view_push, quoted, Tree,
    TreeView};

verus! {

broadcast use
    vstd::std_specs::vec::group_vec_axioms,
    vstd::seq::group_seq_axioms,
    lemma_seq_view_is_map,
    lemma_seq_view_push,
    lemma_seq_view_add;

/// The lexeme of a comparison operator.
pub open spec fn op_text(op: ComparisonOperator) -> Seq<char> {
    match op {
        ComparisonOperator::Equal => "=="@,
        ComparisonOperator::NotEqual => "!="@,
        ComparisonOperator::Match => "=~"@,
    }
}

/// The text with every `-` replaced by `_`.
pub open spec fn snake_cased(s: Seq<char>) -> Seq<char> {
    s.map_values(|c: char| if c == '-' { '_' } else { c })
}

/// The text of a boolean settings value.
pub open spec fn bool_text(b: bool) -> Seq<char> {
    if b {
        "true"@
    } else {
        "false"@
    }
}

/// The canonical tree of an expression.
pub open spec fn expr_tree(e: Expression) -> TreeView
    decreases e,
{
    match e {
        Expression::Concatenation { lhs, rhs } => TreeView::List(
            seq![TreeView::Atom("+"@), expr_tree(*lhs), expr_tree(*rhs)],
        ),
        Expression::Conditional { lhs, rhs, then_branch, otherwise, operator } => TreeView::List(
            seq![
                TreeView::Atom("if"@),
                expr_tree(*lhs),
                TreeView::Atom(op_text(operator)),
                expr_tree(*rhs),
                expr_tree(*then_branch),
                expr_tree(*otherwise),
            ],
        ),
        Expression::Call { thunk } => TreeView::List(
            seq![TreeView::Atom("call"@)] + thunk_children(thunk),
        ),
        Expression::Variable { name } => TreeView::Atom(name@),
        Expression::StringLiteral { cooked } => TreeView::Atom(quoted(cooked@)),
        Expression::Backtick { contents } => TreeView::List(
            seq![TreeView::Atom("backtick"@), TreeView::Atom(quoted(contents@))],
        ),
        Expression::Group { contents } => TreeView::List(seq![expr_tree(*contents)]),
        Expression::Join { lhs: None, rhs } => TreeView::List(
            seq![TreeView::Atom("/"@), expr_tree(*rhs)],
        ),
        Expression::Join { lhs: Some(lhs), rhs } => TreeView::List(
            seq![TreeView::Atom("/"@), expr_tree(*lhs), expr_tree(*rhs)],
        ),
    }
}

/// The children a call node carries after the leading `call` atom: the
/// function name, then the arguments of the call's arity shape in order,
/// an absent optional argument being silently omitted.
pub open spec fn thunk_children(t: Thunk) -> Seq<TreeView>
    decreases t,
{
    match t {
        Thunk::Nullary { name } => seq![TreeView::Atom(name@)],
        Thunk::Unary { name, arg } => seq![TreeView::Atom(name@), expr_tree(*arg)],
        Thunk::UnaryOpt { name, arg, opt: None } => seq![
            TreeView::Atom(name@),
            expr_tree(*arg),
        ],
        Thunk::UnaryOpt { name, arg, opt: Some(opt) } => seq![
            TreeView::Atom(name@),
            expr_tree(*arg),
            expr_tree(*opt),
        ],
        Thunk::Binary { name, a, b } => seq![TreeView::Atom(name@), expr_tree(*a), expr_tree(*b)],
        Thunk::BinaryPlus { name, a, b, rest } => seq![
            TreeView::Atom(name@),
            expr_tree(*a),
            expr_tree(*b),
        ] + expr_trees(rest@),
        Thunk::Ternary { name, a, b, c } => seq![
            TreeView::Atom(name@),
            expr_tree(*a),
            expr_tree(*b),
            expr_tree(*c),
        ],
    }
}

/// The canonical trees of a sequence of expressions, in order.
pub open spec fn expr_trees(es: Seq<Expression>) -> Seq<TreeView>
    decreases es,
{
    if es.len() == 0 {
        Seq::empty()
    } else {
        seq![expr_tree(es[0])] + expr_trees(es.subrange(1, es.len() as int))
    }
}

/// `expr_trees` agrees with mapping `expr_tree` over the sequence.
pub broadcast proof fn lemma_expr_trees_is_map(es: Seq<Expression>)
    ensures
        #[trigger] expr_trees(es) == es.map_values(|e: Expression| expr_tree(e)),
    decreases es.len(),
{
    if es.len() > 0 {
        let sub = es.subrange(1, es.len() as int);
        lemma_expr_trees_is_map(sub);
        assert(expr_trees(es) == seq![expr_tree(es[0])] + expr_trees(sub));
        assert(expr_trees(es).len() == es.len());
        assert forall|i: int| 0 <= i < es.len() implies expr_trees(es)[i] == expr_tree(es[i]) by {
            if i > 0 {
                assert(sub[i - 1] == es[i]);
                assert(expr_trees(sub)[i - 1] == (sub.map_values(|e: Expression| expr_tree(e)))[i
                    - 1]);
                assert(expr_trees(es)[i] == expr_trees(sub)[i - 1]);
            } else {
                assert(expr_trees(es)[0] == expr_tree(es[0]));
            }
        }
    }
    assert(expr_trees(es) =~= es.map_values(|e: Expression| expr_tree(e)));
}

/// The rendering prefix token of a parameter kind, if the kind has one.
pub open spec fn kind_prefix(k: ParameterKind) -> Option<Seq<char>> {
    match k {
        ParameterKind::Normal => None,
        ParameterKind::Star => Some("*"@),
        ParameterKind::Plus => Some("+"@),
        ParameterKind::Export => Some("$"@),
    }
}

/// The canonical tree of a parameter standing alone: its name, then its
/// default expression if it has one.
pub open spec fn param_tree(p: Parameter) -> TreeView {
    match p.default {
        Some(default) => TreeView::List(seq![TreeView::Atom(p.name@), expr_tree(default)]),
        None => TreeView::List(seq![TreeView::Atom(p.name@)]),
    }
}

/// What one parameter contributes to a `params` node: its kind's prefix
/// token where the kind has one, then the parameter's own tree.
pub open spec fn param_entry(p: Parameter) -> Seq<TreeView> {
    match kind_prefix(p.kind) {
        Some(prefix) => seq![TreeView::Atom(prefix), param_tree(p)],
        None => seq![param_tree(p)],
    }
}

/// The contributions of a sequence of parameters, concatenated in order.
pub open spec fn params_entries(ps: Seq<Parameter>) -> Seq<TreeView>
    decreases ps.len(),
{
    if ps.len() == 0 {
        Seq::empty()
    } else {
        params_entries(ps.drop_last()) + param_entry(ps.last())
    }
}

/// The `params` node of a recipe with at least one parameter.
pub open spec fn params_node(ps: Seq<Parameter>) -> TreeView {
    TreeView::List(seq![TreeView::Atom("params"@)] + params_entries(ps))
}

/// The canonical tree of one dependency: the depended-on recipe's name,
/// then its argument expressions in order.
pub open spec fn dep_tree(d: Dependency) -> TreeView {
    TreeView::List(seq![TreeView::Atom(d.recipe@)] + expr_trees(d.arguments@))
}

/// The canonical trees of a sequence of dependencies, in order.
pub open spec fn dep_trees(ds: Seq<Dependency>) -> Seq<TreeView> {
    ds.map_values(|d: Dependency| dep_tree(d))
}

/// A dependency group node: its label (`deps` or `sups`), then the trees of
/// its dependencies in order.
pub open spec fn dep_group_node(label: Seq<char>, ds: Seq<Dependency>) -> TreeView {
    TreeView::List(seq![TreeView::Atom(label)] + dep_trees(ds))
}

/// The canonical tree of a body-line fragment: quoted literal text, or a
/// one-element list wrapping an interpolated expression.
pub open spec fn fragment_tree(f: Fragment) -> TreeView {
    match f {
        Fragment::Text { text } => TreeView::Atom(quoted(text@)),
        Fragment::Interpolation { expression } => TreeView::List(seq![expr_tree(expression)]),
    }
}

/// The canonical trees of a sequence of fragments, in order.
pub open spec fn fragment_trees(fs: Seq<Fragment>) -> Seq<TreeView> {
    fs.map_values(|f: Fragment| fragment_tree(f))
}

/// The canonical tree of a body line: its fragments' trees, in order.
pub open spec fn line_tree(l: Line) -> TreeView {
    TreeView::List(fragment_trees(l.fragments@))
}

/// The canonical trees of a sequence of body lines, in order.
pub open spec fn line_trees(ls: Seq<Line>) -> Seq<TreeView> {
    ls.map_values(|l: Line| line_tree(l))
}

/// What a recipe's `quiet` flag contributes to its tree.
pub open spec fn quiet_children(quiet: bool) -> Seq<TreeView> {
    if quiet {
        seq![TreeView::Atom("#"@), TreeView::Atom("quiet"@)]
    } else {
        Seq::empty()
    }
}

/// What a recipe's doc string contributes to its tree.
pub open spec fn doc_children(doc: Option<String>) -> Seq<TreeView> {
    match doc {
        Some(doc) => seq![TreeView::Atom(quoted(doc@))],
        None => Seq::empty(),
    }
}

/// The `params` node contribution: absent entirely when there are no
/// parameters, never an empty node.
pub open spec fn params_children(ps: Seq<Parameter>) -> Seq<TreeView> {
    if ps.len() > 0 {
        seq![params_node(ps)]
    } else {
        Seq::empty()
    }
}

/// The `deps` node contribution: the first `priors` dependencies, absent
/// entirely when no dependency is prior.
pub open spec fn deps_children(r: Recipe) -> Seq<TreeView> {
    if r.priors > 0 {
        seq![dep_group_node("deps"@, r.dependencies@.subrange(0, r.priors as int))]
    } else {
        Seq::empty()
    }
}

/// The `sups` node contribution: the dependencies after the first `priors`,
/// absent entirely when every dependency is prior.
pub open spec fn sups_children(r: Recipe) -> Seq<TreeView> {
    if r.dependencies@.len() > r.priors {
        seq![
            dep_group_node(
                "sups"@,
                r.dependencies@.subrange(r.priors as int, r.dependencies@.len() as int),
            ),
        ]
    } else {
        Seq::empty()
    }
}

/// The `body` node contribution: absent entirely when the body is empty.
pub open spec fn body_children(ls: Seq<Line>) -> Seq<TreeView> {
    if ls.len() > 0 {
        seq![TreeView::List(seq![TreeView::Atom("body"@)] + line_trees(ls))]
    } else {
        Seq::empty()
    }
}

/// The children of a recipe's canonical tree, in rendering order.
pub open spec fn recipe_children(r: Recipe) -> Seq<TreeView> {
    seq![TreeView::Atom("recipe"@)] + quiet_children(r.quiet) + doc_children(r.doc) + seq![
        TreeView::Atom(r.name@),
    ] + params_children(r.parameters@) + deps_children(r) + sups_children(r) + body_children(
        r.body@,
    )
}

/// The canonical tree of a recipe.
pub open spec fn recipe_tree(r: Recipe) -> TreeView {
    TreeView::List(recipe_children(r))
}

/// The canonical tree of an alias.
pub open spec fn alias_tree(a: Alias) -> TreeView {
    TreeView::List(seq![TreeView::Atom("alias"@), TreeView::Atom(a.name@), TreeView::Atom(a.target@)])
}

/// The canonical tree of an assignment; an exported assignment carries the
/// two marker atoms `#` and `export` before its name.
pub open spec fn assignment_tree(a: Assignment) -> TreeView {
    if a.export {
        TreeView::List(
            seq![
                TreeView::Atom("assignment"@),
                TreeView::Atom("#"@),
                TreeView::Atom("export"@),
                TreeView::Atom(a.name@),
                expr_tree(a.value),
            ],
        )
    } else {
        TreeView::List(
            seq![TreeView::Atom("assignment"@), TreeView::Atom(a.name@), expr_tree(a.value)],
        )
    }
}

/// The canonical tree of a comment: the text in double quotes.
pub open spec fn comment_tree(text: Seq<char>) -> TreeView {
    TreeView::List(seq![TreeView::Atom("comment"@), TreeView::Atom(quoted(text))])
}

/// The atoms a settings payload appends after the directive's name.
pub open spec fn setting_children(s: Setting) -> Seq<TreeView> {
    match s {
        Setting::AllowDuplicateRecipes(b) => seq![TreeView::Atom(bool_text(b))],
        Setting::DotenvLoad(b) => seq![TreeView::Atom(bool_text(b))],
        Setting::Export(b) => seq![TreeView::Atom(bool_text(b))],
        Setting::Fallback(b) => seq![TreeView::Atom(bool_text(b))],
        Setting::PositionalArguments(b) => seq![TreeView::Atom(bool_text(b))],
        Setting::WindowsPowerShell(b) => seq![TreeView::Atom(bool_text(b))],
        Setting::IgnoreComments(b) => seq![TreeView::Atom(bool_text(b))],
        Setting::Shell(sh) => shell_children(sh),
        Setting::WindowsShell(sh) => shell_children(sh),
        Setting::DotenvFilename(v) => seq![TreeView::Atom(quoted(v@))],
        Setting::DotenvPath(v) => seq![TreeView::Atom(quoted(v@))],
        Setting::Tempdir(v) => seq![TreeView::Atom(quoted(v@))],
    }
}

/// Quoted text atoms for a sequence of strings, in order.
pub open spec fn quoted_atoms(args: Seq<String>) -> Seq<TreeView> {
    args.map_values(|a: String| TreeView::Atom(quoted(a@)))
}

/// A shell payload's atoms: the quoted command, then each quoted argument.
pub open spec fn shell_children(sh: Shell) -> Seq<TreeView> {
    seq![TreeView::Atom(quoted(sh.command@))] + quoted_atoms(sh.arguments@)
}

/// The canonical tree of a settings directive: the `set` atom, the
/// directive's name with `-` replaced by `_`, then its payload's atoms.
pub open spec fn set_tree(s: SetDirective) -> TreeView {
    TreeView::List(
        seq![TreeView::Atom("set"@), TreeView::Atom(snake_cased(s.name@))] + setting_children(
            s.value,
        ),
    )
}

/// The canonical tree of a top-level item.
pub open spec fn item_tree(it: Item) -> TreeView {
    match it {
        Item::Alias(a) => alias_tree(a),
        Item::Assignment(a) => assignment_tree(a),
        Item::Comment(text) => comment_tree(text@),
        Item::Recipe(r) => recipe_tree(r),
        Item::Setting(s) => set_tree(s),
    }
}

/// The canonical trees of a sequence of items, in order.
pub open spec fn item_trees(items: Seq<Item>) -> Seq<TreeView> {
    items.map_values(|it: Item| item_tree(it))
}

/// The canonical tree of a whole program without warnings: the `justfile`
/// atom, then each item's tree in source order.
pub open spec fn ast_tree(a: Ast) -> TreeView {
    TreeView::List(seq![TreeView::Atom("justfile"@)] + item_trees(a.items@))
}

impl ComparisonOperator {
    /// The operator's lexeme.
    pub fn text(&self) -> (r: &'static str)
        ensures
            r@ == op_text(*self),
    {
        match self {
            ComparisonOperator::Equal => "==",
            ComparisonOperator::NotEqual => "!=",
            ComparisonOperator::Match => "=~",
        }
    }
}

/// The text of a boolean settings value, as rendered.
pub fn bool_str(b: bool) -> (r: &'static str)
    ensures
        r@ == bool_text(b),
{
    if b {
        "true"
    } else {
        "false"
    }
}

/// The text with every `-` replaced by `_`.
pub fn snake_case(s: &str) -> (r: String)
    ensures
        r@ == snake_cased(s@),
{
    let n = s.unicode_len();
    let mut out = String::new();
    let mut i: usize = 0;
    while i < n
        invariant
            i <= n,
            n == s@.len(),
            out@ == snake_cased(s@.subrange(0, i as int)),
        decreases n - i,
    {
        let c = s.get_char(i);
        if c == '-' {
            out.append("_");
            proof {
                reveal_strlit("_");
                assert("_"@ =~= seq!['_']);
                assert(out@ =~= snake_cased(s@.subrange(0, i + 1 as int)));
            }
        } else {
            let piece = s.substring_char(i, i + 1);
            out.append(piece);
            proof {
                assert(out@ =~= snake_cased(s@.subrange(0, i + 1 as int)));
            }
        }
        i = i + 1;
    }
    proof {
        assert(s@.subrange(0, n as int) =~= s@);
    }
    out
}

impl Expression {
    /// The canonical tree of this expression.
    #[verifier::loop_isolation(false)]
    pub fn tree(&self) -> (t: Tree)
        ensures
            t@ == expr_tree(*self),
        decreases self,
    {
        match self {
            Expression::Concatenation { lhs, rhs } => {
                let mut children: Vec<Tree> = Vec::new();
                children.push(Tree::atom("+"));
                children.push(lhs.tree());
                children.push(rhs.tree());
                let t = Tree::List(children);
                proof {
                    assert(Tree::seq_view(children@) =~= expr_tree(*self)->List_0);
                }
                t
            },
            Expression::Conditional { lhs, rhs, then_branch, otherwise, operator } => {
                let mut children: Vec<Tree> = Vec::new();
                children.push(Tree::atom("if"));
                children.push(lhs.tree());
                children.push(Tree::atom(operator.text()));
                children.push(rhs.tree());
                children.push(then_branch.tree());
                children.push(otherwise.tree());
                let t = Tree::List(children);
                proof {
                    assert(Tree::seq_view(children@) =~= expr_tree(*self)->List_0);
                }
                t
            },
            Expression::Call { thunk } => {
                let mut children: Vec<Tree> = Vec::new();
                children.push(Tree::atom("call"));
                match thunk {
                    Thunk::Nullary { name } => {
                        children.push(Tree::Atom(name.clone()));
                    },
                    Thunk::Unary { name, arg } => {
                        children.push(Tree::Atom(name.clone()));
                        children.push(arg.tree());
                    },
                    Thunk::UnaryOpt { name, arg, opt } => {
                        children.push(Tree::Atom(name.clone()));
                        children.push(arg.tree());
                        if let Some(opt) = opt {
                            children.push(opt.tree());
                        }
                    },
                    Thunk::Binary { name, a, b } => {
                        children.push(Tree::Atom(name.clone()));
                        children.push(a.tree());
                        children.push(b.tree());
                    },
                    Thunk::BinaryPlus { name, a, b, rest } => {
                        children.push(Tree::Atom(name.clone()));
                        children.push(a.tree());
                        children.push(b.tree());
                        let ghost fixed = Tree::seq_view(children@);
                        proof {
                            assert(fixed =~= seq![
                                TreeView::Atom("call"@),
                                TreeView::Atom(name@),
                                expr_tree(**a),
                                expr_tree(**b),
                            ]);
                        }
                        let mut j: usize = 0;
                        while j < rest.len()
                            invariant
                                j <= rest@.len(),
                                Tree::seq_view(children@) == fixed + expr_trees(
                                    rest@.subrange(0, j as int),
                                ),
                            decreases rest@.len() - j,
                        {
                            proof {
                                let e = *self;
                                let tk = e->thunk;
                                let rs = tk->BinaryPlus_rest;
                                assert(decreases_to!(e => e->thunk));
                                assert(decreases_to!(tk => tk->BinaryPlus_rest));
                                assert(decreases_to!(rs => rs@[j as int]));
                            }
                            children.push(rest[j].tree());
                            proof {
                                lemma_expr_trees_is_map(rest@.subrange(0, j as int));
                                lemma_expr_trees_is_map(rest@.subrange(0, j + 1 as int));
                                assert(rest@.subrange(0, j + 1 as int) =~= rest@.subrange(
                                    0,
                                    j as int,
                                ).push(rest@[j as int]));
                                assert(fixed + expr_trees(rest@.subrange(0, j + 1 as int))
                                    =~= (fixed + expr_trees(rest@.subrange(0, j as int))).push(
                                    expr_tree(rest@[j as int]),
                                ));
                            }
                            j = j + 1;
                        }
                        proof {
                            lemma_expr_trees_is_map(rest@);
                            assert(rest@.subrange(0, rest@.len() as int) =~= rest@);
                            assert(Tree::seq_view(children@) =~= seq![
                                TreeView::Atom("call"@),
                            ] + thunk_children(*thunk));
                        }
                    },
                    Thunk::Ternary { name, a, b, c } => {
                        children.push(Tree::Atom(name.clone()));
                        children.push(a.tree());
                        children.push(b.tree());
                        children.push(c.tree());
                    },
                }
                let t = Tree::List(children);
                proof {
                    assert(Tree::seq_view(children@) =~= expr_tree(*self)->List_0);
                }
                t
            },
            Expression::Variable { name } => Tree::Atom(name.clone()),
            Expression::StringLiteral { cooked } => Tree::string(cooked.as_str()),
            Expression::Backtick { contents } => {
                let mut children: Vec<Tree> = Vec::new();
                children.push(Tree::atom("backtick"));
                children.push(Tree::string(contents.as_str()));
                let t = Tree::List(children);
                proof {
                    assert(Tree::seq_view(children@) =~= expr_tree(*self)->List_0);
                }
                t
            },
            Expression::Group { contents } => {
                let mut children: Vec<Tree> = Vec::new();
                children.push(contents.tree());
                let t = Tree::List(children);
                proof {
                    assert(Tree::seq_view(children@) =~= expr_tree(*self)->List_0);
                }
                t
            },
            Expression::Join { lhs, rhs } => {
                let mut children: Vec<Tree> = Vec::new();
                children.push(Tree::atom("/"));
                if let Some(lhs) = lhs {
                    children.push(lhs.tree());
                }
                children.push(rhs.tree());
                let t = Tree::List(children);
                proof {
                    assert(Tree::seq_view(children@) =~= expr_tree(*self)->List_0);
                }
                t
            },
        }
    }
}

impl ParameterKind {
    /// The rendering prefix token of this kind, if it has one.
    pub fn prefix(&self) -> (r: Option<&'static str>)
        ensures
            match r {
                Some(p) => kind_prefix(*self) == Some(p@),
                None => kind_prefix(*self) is None,
            },
    {
        match self {
            ParameterKind::Normal => None,
            ParameterKind::Star => Some("*"),
            ParameterKind::Plus => Some("+"),
            ParameterKind::Export => Some("$"),
        }
    }
}

impl Parameter {
    /// The canonical tree of this parameter standing alone.
    pub fn tree(&self) -> (t: Tree)
        ensures
            t@ == param_tree(*self),
    {
        let mut children: Vec<Tree> = Vec::new();
        children.push(Tree::Atom(self.name.clone()));
        if let Some(default) = &self.default {
            children.push(default.tree());
        }
        let t = Tree::List(children);
        proof {
            assert(Tree::seq_view(children@) =~= param_tree(*self)->List_0);
        }
        t
    }
}

impl Fragment {
    /// The canonical tree of this body-line fragment.
    pub fn tree(&self) -> (t: Tree)
        ensures
            t@ == fragment_tree(*self),
    {
        match self {
            Fragment::Text { text } => Tree::string(text.as_str()),
            Fragment::Interpolation { expression } => {
                let mut children: Vec<Tree> = Vec::new();
                children.push(expression.tree());
                let t = Tree::List(children);
                proof {
                    assert(Tree::seq_view(children@) =~= fragment_tree(*self)->List_0);
                }
                t
            },
        }
    }
}

impl Line {
    /// The canonical tree of this body line.
    #[verifier::loop_isolation(false)]
    pub fn tree(&self) -> (t: Tree)
        ensures
            t@ == line_tree(*self),
    {
        let mut children: Vec<Tree> = Vec::new();
        let mut j: usize = 0;
        while j < self.fragments.len()
            invariant
                j <= self.fragments@.len(),
                Tree::seq_view(children@) == fragment_trees(self.fragments@.subrange(0, j as int)),
            decreases self.fragments@.len() - j,
        {
            children.push(self.fragments[j].tree());
            proof {
                assert(self.fragments@.subrange(0, j + 1 as int) =~= self.fragments@.subrange(
                    0,
                    j as int,
                ).push(self.fragments@[j as int]));
                assert(fragment_trees(self.fragments@.subrange(0, j + 1 as int)) =~= fragment_trees(
                    self.fragments@.subrange(0, j as int),
                ).push(fragment_tree(self.fragments@[j as int])));
            }
            j = j + 1;
        }
        let t = Tree::List(children);
        proof {
            assert(self.fragments@.subrange(0, self.fragments@.len() as int) =~= self.fragments@);
        }
        t
    }
}

impl Dependency {
    /// The canonical tree of this dependency.
    #[verifier::loop_isolation(false)]
    pub fn tree(&self) -> (t: Tree)
        ensures
            t@ == dep_tree(*self),
    {
        let mut children: Vec<Tree> = Vec::new();
        children.push(Tree::Atom(self.recipe.clone()));
        let mut j: usize = 0;
        while j < self.arguments.len()
            invariant
                j <= self.arguments@.len(),
                Tree::seq_view(children@) == seq![TreeView::Atom(self.recipe@)] + expr_trees(
                    self.arguments@.subrange(0, j as int),
                ),
            decreases self.arguments@.len() - j,
        {
            children.push(self.arguments[j].tree());
            proof {
                lemma_expr_trees_is_map(self.arguments@.subrange(0, j as int));
                lemma_expr_trees_is_map(self.arguments@.subrange(0, j + 1 as int));
                assert(self.arguments@.subrange(0, j + 1 as int) =~= self.arguments@.subrange(
                    0,
                    j as int,
                ).push(self.arguments@[j as int]));
                assert(expr_trees(self.arguments@.subrange(0, j + 1 as int)) =~= expr_trees(
                    self.arguments@.subrange(0, j as int),
                ).push(expr_tree(self.arguments@[j as int])));
            }
            j = j + 1;
        }
        let t = Tree::List(children);
        proof {
            assert(self.arguments@.subrange(0, self.arguments@.len() as int) =~= self.arguments@);
        }
        t
    }
}

impl Assignment {
    /// The canonical tree of this assignment.
    pub fn tree(&self) -> (t: Tree)
        ensures
            t@ == assignment_tree(*self),
    {
        let mut children: Vec<Tree> = Vec::new();
        children.push(Tree::atom("assignment"));
        if self.export {
            children.push(Tree::atom("#"));
            children.push(Tree::atom("export"));
        }
        children.push(Tree::Atom(self.name.clone()));
        children.push(self.value.tree());
        let t = Tree::List(children);
        proof {
            assert(Tree::seq_view(children@) =~= assignment_tree(*self)->List_0);
        }
        t
    }
}

/// The canonical tree of a comment with the given text.
pub fn render_comment(text: &str) -> (t: Tree)
    ensures
        t@ == comment_tree(text@),
{
    let mut children: Vec<Tree> = Vec::new();
    children.push(Tree::atom("comment"));
    children.push(Tree::string(text));
    let t = Tree::List(children);
    proof {
        assert(Tree::seq_view(children@) =~= comment_tree(text@)->List_0);
    }
    t
}

impl Alias {
    /// The canonical tree of this alias.
    pub fn tree(&self) -> (t: Tree)
        ensures
            t@ == alias_tree(*self),
    {
        let mut children: Vec<Tree> = Vec::new();
        children.push(Tree::atom("alias"));
        children.push(Tree::Atom(self.name.clone()));
        children.push(Tree::Atom(self.target.clone()));
        let t = Tree::List(children);
        proof {
            assert(Tree::seq_view(children@) =~= alias_tree(*self)->List_0);
        }
        t
    }
}

impl Shell {
    /// Appends this payload's atoms: the quoted command, then each quoted
    /// argument in order.
    #[verifier::loop_isolation(false)]
    fn push_atoms(&self, children: &mut Vec<Tree>)
        ensures
            final(children)@.len() >= old(children)@.len(),
            Tree::seq_view(final(children)@) == Tree::seq_view(old(children)@) + shell_children(
                *self,
            ),
    {
        let ghost start = Tree::seq_view(children@);
        children.push(Tree::string(self.command.as_str()));
        let mut j: usize = 0;
        while j < self.arguments.len()
            invariant
                j <= self.arguments@.len(),
                children@.len() >= old(children)@.len(),
                Tree::seq_view(children@) == start + seq![
                    TreeView::Atom(quoted(self.command@)),
                ] + quoted_atoms(self.arguments@.subrange(0, j as int)),
            decreases self.arguments@.len() - j,
        {
            children.push(Tree::string(self.arguments[j].as_str()));
            proof {
                assert(self.arguments@.subrange(0, j + 1 as int) =~= self.arguments@.subrange(
                    0,
                    j as int,
                ).push(self.arguments@[j as int]));
                assert(quoted_atoms(self.arguments@.subrange(0, j + 1 as int)) =~= quoted_atoms(
                    self.arguments@.subrange(0, j as int),
                ).push(TreeView::Atom(quoted(self.arguments@[j as int]@))));
            }
            j = j + 1;
        }
        proof {
            assert(self.arguments@.subrange(0, self.arguments@.len() as int) =~= self.arguments@);
            assert(Tree::seq_view(children@) =~= start + shell_children(*self));
        }
    }
}

impl SetDirective {
    /// The canonical tree of this settings directive.
    pub fn tree(&self) -> (t: Tree)
        ensures
            t@ == set_tree(*self),
    {
        let mut children: Vec<Tree> = Vec::new();
        children.push(Tree::atom("set"));
        children.push(Tree::Atom(snake_case(self.name.as_str())));
        match &self.value {
            Setting::AllowDuplicateRecipes(b) => children.push(Tree::atom(bool_str(*b))),
            Setting::DotenvLoad(b) => children.push(Tree::atom(bool_str(*b))),
            Setting::Export(b) => children.push(Tree::atom(bool_str(*b))),
            Setting::Fallback(b) => children.push(Tree::atom(bool_str(*b))),
            Setting::PositionalArguments(b) => children.push(Tree::atom(bool_str(*b))),
            Setting::WindowsPowerShell(b) => children.push(Tree::atom(bool_str(*b))),
            Setting::IgnoreComments(b) => children.push(Tree::atom(bool_str(*b))),
            Setting::Shell(sh) => sh.push_atoms(&mut children),
            Setting::WindowsShell(sh) => sh.push_atoms(&mut children),
            Setting::DotenvFilename(v) => children.push(Tree::string(v.as_str())),
            Setting::DotenvPath(v) => children.push(Tree::string(v.as_str())),
            Setting::Tempdir(v) => children.push(Tree::string(v.as_str())),
        }
        let t = Tree::List(children);
        proof {
            assert(Tree::seq_view(children@) =~= set_tree(*self)->List_0);
        }
        t
    }
}

impl Recipe {
    /// The canonical tree of this recipe, with each optional part (quiet
    /// marker, doc, params, deps, sups, body) omitted entirely when absent
    /// or empty, never emitted as an empty node.
    #[verifier::loop_isolation(false)]
    #[verifier::rlimit(100)]
    pub fn tree(&self) -> (t: Tree)
        requires
            self.wf(),
        ensures
            t@ == recipe_tree(*self),
    {
        let mut children: Vec<Tree> = Vec::new();
        children.push(Tree::atom("recipe"));
        if self.quiet {
            children.push(Tree::atom("#"));
            children.push(Tree::atom("quiet"));
        }
        match &self.doc {
            Some(doc) => children.push(Tree::string(doc.as_str())),
            None => {},
        }
        children.push(Tree::Atom(self.name.clone()));
        let ghost head = seq![TreeView::Atom("recipe"@)] + quiet_children(self.quiet)
            + doc_children(self.doc) + seq![TreeView::Atom(self.name@)];
        proof {
            assert(Tree::seq_view(children@) =~= head);
        }
        if self.parameters.len() > 0 {
            let mut ps: Vec<Tree> = Vec::new();
            ps.push(Tree::atom("params"));
            let mut j: usize = 0;
            while j < self.parameters.len()
                invariant
                    j <= self.parameters@.len(),
                    Tree::seq_view(ps@) == seq![TreeView::Atom("params"@)] + params_entries(
                        self.parameters@.subrange(0, j as int),
                    ),
                decreases self.parameters@.len() - j,
            {
                let p = &self.parameters[j];
                match p.kind.prefix() {
                    Some(prefix) => ps.push(Tree::atom(prefix)),
                    None => {},
                }
                ps.push(p.tree());
                proof {
                    let sub = self.parameters@.subrange(0, j + 1 as int);
                    assert(sub.drop_last() =~= self.parameters@.subrange(0, j as int));
                    assert(sub.last() == self.parameters@[j as int]);
                    assert(params_entries(sub) == params_entries(sub.drop_last()) + param_entry(
                        sub.last(),
                    ));
                    assert(Tree::seq_view(ps@) =~= seq![TreeView::Atom("params"@)]
                        + params_entries(sub));
                }
                j = j + 1;
            }
            proof {
                assert(self.parameters@.subrange(0, self.parameters@.len() as int)
                    =~= self.parameters@);
            }
            children.push(Tree::List(ps));
        }
        let ghost with_params = head + params_children(self.parameters@);
        proof {
            assert(Tree::seq_view(children@) =~= with_params);
        }
        if self.priors > 0 {
            let mut ds: Vec<Tree> = Vec::new();
            ds.push(Tree::atom("deps"));
            let mut j: usize = 0;
            while j < self.priors
                invariant
                    j <= self.priors,
                    Tree::seq_view(ds@) == seq![TreeView::Atom("deps"@)] + dep_trees(
                        self.dependencies@.subrange(0, j as int),
                    ),
                decreases self.priors - j,
            {
                ds.push(self.dependencies[j].tree());
                proof {
                    assert(self.dependencies@.subrange(0, j + 1 as int) =~= self
                        .dependencies@.subrange(0, j as int).push(self.dependencies@[j as int]));
                    assert(dep_trees(self.dependencies@.subrange(0, j + 1 as int)) =~= dep_trees(
                        self.dependencies@.subrange(0, j as int),
                    ).push(dep_tree(self.dependencies@[j as int])));
                }
                j = j + 1;
            }
            children.push(Tree::List(ds));
        }
        let ghost with_deps = with_params + deps_children(*self);
        proof {
            assert(Tree::seq_view(children@) =~= with_deps);
        }
        if self.dependencies.len() > self.priors {
            let mut ss: Vec<Tree> = Vec::new();
            ss.push(Tree::atom("sups"));
            let mut j: usize = self.priors;
            while j < self.dependencies.len()
                invariant
                    self.priors <= j <= self.dependencies@.len(),
                    Tree::seq_view(ss@) == seq![TreeView::Atom("sups"@)] + dep_trees(
                        self.dependencies@.subrange(self.priors as int, j as int),
                    ),
                decreases self.dependencies@.len() - j,
            {
                ss.push(self.dependencies[j].tree());
                proof {
                    assert(self.dependencies@.subrange(self.priors as int, j + 1 as int) =~= self
                        .dependencies@.subrange(self.priors as int, j as int).push(
                        self.dependencies@[j as int],
                    ));
                    assert(dep_trees(
                        self.dependencies@.subrange(self.priors as int, j + 1 as int),
                    ) =~= dep_trees(self.dependencies@.subrange(self.priors as int, j as int)).push(
                        dep_tree(self.dependencies@[j as int]),
                    ));
                }
                j = j + 1;
            }
            children.push(Tree::List(ss));
        }
        let ghost with_sups = with_deps + sups_children(*self);
        proof {
            assert(Tree::seq_view(children@) =~= with_sups);
        }
        if self.body.len() > 0 {
            let mut bs: Vec<Tree> = Vec::new();
            bs.push(Tree::atom("body"));
            let mut j: usize = 0;
            while j < self.body.len()
                invariant
                    j <= self.body@.len(),
                    Tree::seq_view(bs@) == seq![TreeView::Atom("body"@)] + line_trees(
                        self.body@.subrange(0, j as int),
                    ),
                decreases self.body@.len() - j,
            {
                bs.push(self.body[j].tree());
                proof {
                    assert(self.body@.subrange(0, j + 1 as int) =~= self.body@.subrange(
                        0,
                        j as int,
                    ).push(self.body@[j as int]));
                    assert(line_trees(self.body@.subrange(0, j + 1 as int)) =~= line_trees(
                        self.body@.subrange(0, j as int),
                    ).push(line_tree(self.body@[j as int])));
                }
                j = j + 1;
            }
            proof {
                assert(self.body@.subrange(0, self.body@.len() as int) =~= self.body@);
            }
            children.push(Tree::List(bs));
        }
        let t = Tree::List(children);
        proof {
            assert(Tree::seq_view(children@) =~= recipe_children(*self));
        }
        t
    }
}

impl Item {
    /// The canonical tree of this item.
    pub fn tree(&self) -> (t: Tree)
        requires
            self.wf(),
        ensures
            t@ == item_tree(*self),
    {
        match self {
            Item::Alias(alias) => alias.tree(),
            Item::Assignment(assignment) => assignment.tree(),
            Item::Comment(comment) => render_comment(comment.as_str()),
            Item::Recipe(recipe) => recipe.tree(),
            Item::Setting(set) => set.tree(),
        }
    }
}

impl Warning {
    /// A warning has no canonical tree: asking for one always fails, so a
    /// warning can never slip silently into a structural comparison.
    pub fn tree(&self) -> (r: Result<Tree, TreeError>)
        ensures
            r == Result::<Tree, TreeError>::Err(TreeError::WarningPresent),
    {
        Err(TreeError::WarningPresent)
    }
}

impl Ast {
    /// The canonical tree of this whole program. Rendering succeeds exactly
    /// when the program carries no warnings; a program that still holds
    /// warnings fails loudly instead of rendering a vacuous tree.
    #[verifier::loop_isolation(false)]
    pub fn tree(&self) -> (r: Result<Tree, TreeError>)
        requires
            self.wf(),
        ensures
            r is Ok <==> self.warnings@.len() == 0,
            r matches Ok(t) ==> t@ == ast_tree(*self),
            r matches Err(e) ==> e == TreeError::WarningPresent,
    {
        if self.warnings.len() > 0 {
            return Err(TreeError::WarningPresent);
        }
        let mut children: Vec<Tree> = Vec::new();
        children.push(Tree::atom("justfile"));
        let mut j: usize = 0;
        while j < self.items.len()
            invariant
                j <= self.items@.len(),
                Tree::seq_view(children@) == seq![TreeView::Atom("justfile"@)] + item_trees(
                    self.items@.subrange(0, j as int),
                ),
            decreases self.items@.len() - j,
        {
            proof {
                assert(self.items@[j as int].wf());
            }
            children.push(self.items[j].tree());
            proof {
                assert(self.items@.subrange(0, j + 1 as int) =~= self.items@.subrange(
                    0,
                    j as int,
                ).push(self.items@[j as int]));
                assert(item_trees(self.items@.subrange(0, j + 1 as int)) =~= item_trees(
                    self.items@.subrange(0, j as int),
                ).push(item_tree(self.items@[j as int])));
            }
            j = j + 1;
        }
        let t = Tree::List(children);
        proof {
            assert(self.items@.subrange(0, self.items@.len() as int) =~= self.items@);
            assert(t@ == ast_tree(*self));
        }
        Ok(t)
    }
}

} // verus!
