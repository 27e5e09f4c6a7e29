//! The parsed story: source locations, errors, content, expressions, diverts,
//! choices, conditionals, sequences, knots and the top-level story nodes, each
//! with its mathematical view.

use vstd::prelude::*;

verus! {

// ---------------------------------------------------------------------------
// Base: locations, identifiers, errors
// ---------------------------------------------------------------------------

/// Source location for error reporting and debug metadata.
#[derive(Debug)]
pub struct SourceLocation {
    pub file: String,
    pub line: usize,
    pub column: usize,
}

pub struct SourceLocationView {
    pub file: Seq<char>,
    pub line: nat,
    pub column: nat,
}

impl View for SourceLocation {
    type V = SourceLocationView;

    open spec fn view(&self) -> SourceLocationView {
        SourceLocationView { file: self.file@, line: self.line as nat, column: self.column as nat }
    }
}

impl SourceLocation {
    pub fn new(file: &str, line: usize, column: usize) -> (r: Self)
        ensures
            r@ == (SourceLocationView { file: file@, line: line as nat, column: column as nat }),
    {
        SourceLocation { file: String::from_str(file), line, column }
    }

    pub fn unknown() -> (r: Self)
        ensures
            r@ == (SourceLocationView { file: Seq::empty(), line: 0, column: 0 }),
    {
        SourceLocation { file: String::new(), line: 0, column: 0 }
    }

    /// The `file:line:column` rendering used in error messages.
    pub fn to_display_string(&self) -> (r: String)
        ensures
            r@ == location_text(self@),
    {
        let mut s = String::from_str(self.file.as_str());
        s.push(':');
        crate::text::push_decimal(&mut s, self.line);
        s.push(':');
        crate::text::push_decimal(&mut s, self.column);
        assert(s@ =~= location_text(self@));
        s
    }
}

/// `file:line:column`.
pub open spec fn location_text(l: SourceLocationView) -> Seq<char> {
    l.file + seq![':'] + crate::text::decimal(l.line) + seq![':'] + crate::text::decimal(l.column)
}

impl Clone for SourceLocation {
    fn clone(&self) -> (r: Self)
        ensures
            r@ == self@,
    {
        SourceLocation { file: String::from_str(self.file.as_str()), line: self.line, column: self.column }
    }
}

/// An ink identifier (knot name, variable name, etc.).
#[derive(Debug)]
pub struct Identifier {
    pub name: String,
    pub location: SourceLocation,
}

pub struct IdentifierView {
    pub name: Seq<char>,
    pub location: SourceLocationView,
}

impl View for Identifier {
    type V = IdentifierView;

    open spec fn view(&self) -> IdentifierView {
        IdentifierView { name: self.name@, location: self.location@ }
    }
}

impl Identifier {
    pub fn new(name: &str, location: SourceLocation) -> (r: Self)
        ensures
            r@ == (IdentifierView { name: name@, location: location@ }),
    {
        Identifier { name: String::from_str(name), location }
    }
}

impl Clone for Identifier {
    fn clone(&self) -> (r: Self)
        ensures
            r@ == self@,
    {
        Identifier { name: String::from_str(self.name.as_str()), location: self.location.clone() }
    }
}

/// Error severity.
#[derive(Debug, Clone, Copy, PartialEq, Eq, Structural)]
pub enum ErrorType {
    Error,
    Warning,
    AuthorMessage,
}

/// A parse or compilation error/warning.
#[derive(Debug)]
pub struct InkError {
    pub message: String,
    pub error_type: ErrorType,
    pub location: SourceLocation,
}

pub struct InkErrorView {
    pub message: Seq<char>,
    pub error_type: ErrorType,
    pub location: SourceLocationView,
}

impl View for InkError {
    type V = InkErrorView;

    open spec fn view(&self) -> InkErrorView {
        InkErrorView { message: self.message@, error_type: self.error_type, location: self.location@ }
    }
}

/// The prefix of an error's rendering for its severity.
pub open spec fn severity_text(t: ErrorType) -> Seq<char> {
    match t {
        ErrorType::Error => seq!['E', 'R', 'R', 'O', 'R'],
        ErrorType::Warning => seq!['W', 'A', 'R', 'N', 'I', 'N', 'G'],
        ErrorType::AuthorMessage => seq!['T', 'O', 'D', 'O'],
    }
}

/// `SEVERITY at file:line:column: message`.
pub open spec fn error_text(e: InkErrorView) -> Seq<char> {
    severity_text(e.error_type) + seq![' ', 'a', 't', ' '] + location_text(e.location) + seq![
        ':',
        ' ',
    ] + e.message
}

impl InkError {
    pub fn error(message: &str, location: SourceLocation) -> (r: Self)
        ensures
            r@ == (InkErrorView { message: message@, error_type: ErrorType::Error, location: location@ }),
    {
        InkError { message: String::from_str(message), error_type: ErrorType::Error, location }
    }

    pub fn warning(message: &str, location: SourceLocation) -> (r: Self)
        ensures
            r@ == (InkErrorView {
                message: message@,
                error_type: ErrorType::Warning,
                location: location@,
            }),
    {
        InkError { message: String::from_str(message), error_type: ErrorType::Warning, location }
    }

    pub fn is_error(&self) -> (r: bool)
        ensures
            r == (self.error_type == ErrorType::Error),
    {
        self.error_type == ErrorType::Error
    }

    /// The rendering `ERROR at file:line:column: message` (`WARNING`, `TODO`
    /// for the other severities).
    pub fn to_display_string(&self) -> (r: String)
        ensures
            r@ == error_text(self@),
    {
        let mut s = match self.error_type {
            ErrorType::Error => String::from_str("ERROR"),
            ErrorType::Warning => String::from_str("WARNING"),
            ErrorType::AuthorMessage => String::from_str("TODO"),
        };
        proof {
            reveal_strlit("ERROR");
            reveal_strlit("WARNING");
            reveal_strlit("TODO");
        }
        let ghost s0 = s@;
        assert(s0 == severity_text(self.error_type));
        s.push(' ');
        s.push('a');
        s.push('t');
        s.push(' ');
        let loc = self.location.to_display_string();
        s.append(loc.as_str());
        s.push(':');
        s.push(' ');
        s.append(self.message.as_str());
        assert(s@ =~= error_text(self@));
        s
    }
}

impl Clone for InkError {
    fn clone(&self) -> (r: Self)
        ensures
            r@ == self@,
    {
        InkError {
            message: String::from_str(self.message.as_str()),
            error_type: self.error_type,
            location: self.location.clone(),
        }
    }
}

/// The views of the items of an optional value.
pub open spec fn opt_view<T: View>(o: Option<T>) -> Option<T::V> {
    match o {
        Some(x) => Some(x@),
        None => None,
    }
}

/// The views of the items of a sequence.
pub open spec fn seq_view<T: View>(s: Seq<T>) -> Seq<T::V> {
    s.map_values(|x: T| x@)
}

// ---------------------------------------------------------------------------
// Content
// ---------------------------------------------------------------------------

#[derive(Debug)]
pub struct Text {
    pub text: String,
    pub location: SourceLocation,
}

pub struct TextView {
    pub text: Seq<char>,
    pub location: SourceLocationView,
}

impl View for Text {
    type V = TextView;

    open spec fn view(&self) -> TextView {
        TextView { text: self.text@, location: self.location@ }
    }
}

impl Text {
    pub fn new(text: &str, location: SourceLocation) -> (r: Self)
        ensures
            r@ == (TextView { text: text@, location: location@ }),
    {
        Text { text: String::from_str(text), location }
    }
}

#[derive(Debug)]
pub struct ContentList {
    pub items: Vec<ContentItem>,
    pub location: SourceLocation,
}

pub struct ContentListView {
    pub items: Seq<ContentItemView>,
    pub location: SourceLocationView,
}

impl View for ContentList {
    type V = ContentListView;

    open spec fn view(&self) -> ContentListView {
        ContentListView { items: seq_view(self.items@), location: self.location@ }
    }
}

#[derive(Debug)]
pub enum ContentItem {
    Text(Text),
    Expression(Expression),
    Divert(Divert),
    Tag(Tag),
    Glue,
}

pub enum ContentItemView {
    Text(TextView),
    Expression(ExpressionView),
    Divert(DivertView),
    Tag(TagView),
    Glue,
}

impl View for ContentItem {
    type V = ContentItemView;

    open spec fn view(&self) -> ContentItemView {
        match self {
            ContentItem::Text(t) => ContentItemView::Text(t@),
            ContentItem::Expression(e) => ContentItemView::Expression(expr_view(*e)),
            ContentItem::Divert(d) => ContentItemView::Divert(d@),
            ContentItem::Tag(t) => ContentItemView::Tag(t@),
            ContentItem::Glue => ContentItemView::Glue,
        }
    }
}

impl ContentList {
    pub fn empty(location: SourceLocation) -> (r: Self)
        ensures
            r@ == (ContentListView { items: Seq::empty(), location: location@ }),
    {
        let r = ContentList { items: Vec::new(), location };
        assert(r@.items =~= Seq::<ContentItemView>::empty());
        r
    }

    pub fn from_items(items: Vec<ContentItem>, location: SourceLocation) -> (r: Self)
        ensures
            r@ == (ContentListView { items: seq_view(items@), location: location@ }),
    {
        ContentList { items, location }
    }
}

// ---------------------------------------------------------------------------
// Tags
// ---------------------------------------------------------------------------

#[derive(Debug)]
pub struct Tag {
    pub is_start: bool,
    pub in_choice: bool,
    pub location: SourceLocation,
}

pub struct TagView {
    pub is_start: bool,
    pub in_choice: bool,
    pub location: SourceLocationView,
}

impl View for Tag {
    type V = TagView;

    open spec fn view(&self) -> TagView {
        TagView { is_start: self.is_start, in_choice: self.in_choice, location: self.location@ }
    }
}

// ---------------------------------------------------------------------------
// Paths and diverts
// ---------------------------------------------------------------------------

#[derive(Debug)]
pub enum PathComponent {
    Name(String),
    Parent,
    Index(usize),
}

pub enum PathComponentView {
    Name(Seq<char>),
    Parent,
    Index(nat),
}

impl View for PathComponent {
    type V = PathComponentView;

    open spec fn view(&self) -> PathComponentView {
        match self {
            PathComponent::Name(n) => PathComponentView::Name(n@),
            PathComponent::Parent => PathComponentView::Parent,
            PathComponent::Index(i) => PathComponentView::Index(*i as nat),
        }
    }
}

#[derive(Debug)]
pub struct InkPath {
    pub components: Vec<PathComponent>,
}

pub struct InkPathView {
    pub components: Seq<PathComponentView>,
}

impl View for InkPath {
    type V = InkPathView;

    open spec fn view(&self) -> InkPathView {
        InkPathView { components: seq_view(self.components@) }
    }
}

/// The text of one path component: its name, `^` for the parent, or the index.
pub open spec fn component_text(c: PathComponentView) -> Seq<char> {
    match c {
        PathComponentView::Name(n) => n,
        PathComponentView::Parent => seq!['^'],
        PathComponentView::Index(i) => crate::text::decimal(i),
    }
}

/// The components' texts joined by `.`.
pub open spec fn path_text(cs: Seq<PathComponentView>) -> Seq<char>
    decreases cs.len(),
{
    if cs.len() == 0 {
        Seq::empty()
    } else if cs.len() == 1 {
        component_text(cs[0])
    } else {
        path_text(cs.drop_last()) + seq!['.'] + component_text(cs.last())
    }
}

impl InkPath {
    pub fn from_names(names: Vec<String>) -> (r: Self)
        ensures
            r@.components == names@.map_values(|n: String| PathComponentView::Name(n@)),
    {
        let mut components: Vec<PathComponent> = Vec::new();
        let mut names = names;
        let ghost all = names@;
        while names.len() > 0
            invariant
                components@.len() + names@.len() == all.len(),
                names@ == all.skip(components@.len() as int),
                forall|j: int|
                    0 <= j < components@.len() ==> (#[trigger] components@[j])@
                        == PathComponentView::Name(all[j]@),
            decreases names.len(),
        {
            let ghost k = components@.len();
            let x = names.remove(0);
            assert(x == all[k as int]);
            components.push(PathComponent::Name(x));
            assert(names@ =~= all.skip(components@.len() as int));
        }
        assert(seq_view(components@) =~= all.map_values(|n: String| PathComponentView::Name(n@)));
        InkPath { components }
    }

    /// The components joined by `.`: names as written, `^` for the parent,
    /// indices in decimal.
    pub fn to_string_path(&self) -> (r: String)
        ensures
            r@ == path_text(self@.components),
    {
        let mut s = String::new();
        let mut i: usize = 0;
        while i < self.components.len()
            invariant
                i <= self.components.len(),
                s@ == path_text(self@.components.take(i as int)),
            decreases self.components.len() - i,
        {
            let ghost before = s@;
            if i > 0 {
                s.push('.');
            }
            match &self.components[i] {
                PathComponent::Name(n) => s.append(n.as_str()),
                PathComponent::Parent => s.push('^'),
                PathComponent::Index(k) => crate::text::push_decimal(&mut s, *k),
            }
            proof {
                let cs = self@.components.take(i + 1);
                assert(cs.drop_last() =~= self@.components.take(i as int));
                assert(cs.last() == self.components@[i as int]@);
                if i == 0 {
                    assert(before =~= Seq::<char>::empty());
                }
            }
            i = i + 1;
            assert(s@ =~= path_text(self@.components.take(i as int)));
        }
        assert(self@.components.take(i as int) =~= self@.components);
        s
    }
}

#[derive(Debug)]
pub enum DivertTarget {
    Path(InkPath),
    Variable(String),
}

pub enum DivertTargetView {
    Path(InkPathView),
    Variable(Seq<char>),
}

impl View for DivertTarget {
    type V = DivertTargetView;

    open spec fn view(&self) -> DivertTargetView {
        match self {
            DivertTarget::Path(p) => DivertTargetView::Path(p@),
            DivertTarget::Variable(v) => DivertTargetView::Variable(v@),
        }
    }
}

#[derive(Debug)]
pub struct Divert {
    pub target: DivertTarget,
    pub is_tunnel: bool,
    pub is_thread: bool,
    pub is_conditional: bool,
    pub arguments: Vec<Expression>,
    pub is_empty: bool,
    pub location: SourceLocation,
}

pub struct DivertView {
    pub target: DivertTargetView,
    pub is_tunnel: bool,
    pub is_thread: bool,
    pub is_conditional: bool,
    pub arguments: Seq<ExpressionView>,
    pub is_empty: bool,
    pub location: SourceLocationView,
}

impl View for Divert {
    type V = DivertView;

    open spec fn view(&self) -> DivertView {
        DivertView {
            target: self.target@,
            is_tunnel: self.is_tunnel,
            is_thread: self.is_thread,
            is_conditional: self.is_conditional,
            arguments: exprs_view(self.arguments@),
            is_empty: self.is_empty,
            location: self.location@,
        }
    }
}

#[derive(Debug)]
pub struct TunnelOnwards {
    pub divert_after: Option<Box<Divert>>,
    pub location: SourceLocation,
}

// ---------------------------------------------------------------------------
// Expressions
// ---------------------------------------------------------------------------

#[derive(Debug)]
pub struct Expression {
    pub kind: ExpressionKind,
    pub location: SourceLocation,
}

#[derive(Debug)]
pub enum ExpressionKind {
    Literal(ExpressionValue),
    VariableRef(VariableReference),
    BinaryOp(BinaryOp),
    UnaryOp(UnaryOp),
    FunctionCall(FunctionCall),
    List(ListExpression),
    InkListLiteral(InkListLiteral),
    DivertTarget(InkPath),
    MultipleConditions(MultipleConditionExpression),
}

/// A literal value. A float literal is held as the decimal text it was
/// written with (`-`, digits, `.`, digits).
#[derive(Debug)]
pub enum ExpressionValue {
    Int(i64),
    Float(String),
    String(String),
    Bool(bool),
    DivertTarget(InkPath),
    VariablePointer(String),
    InkList(InkListLiteral),
}

#[derive(Debug)]
pub struct BinaryOp {
    pub left: Box<Expression>,
    pub op: BinaryOperator,
    pub right: Box<Expression>,
}

#[derive(Debug, Clone, Copy, PartialEq, Eq, Structural)]
pub enum BinaryOperator {
    Add,
    Sub,
    Mul,
    Div,
    Mod,
    Equal,
    NotEqual,
    Greater,
    Less,
    GreaterEqual,
    LessEqual,
    And,
    Or,
    Min,
    Max,
}

#[derive(Debug)]
pub struct UnaryOp {
    pub op: UnaryOperator,
    pub inner: Box<Expression>,
}

#[derive(Debug, Clone, Copy, PartialEq, Eq, Structural)]
pub enum UnaryOperator {
    Negate,
    Not,
}

#[derive(Debug)]
pub struct FunctionCall {
    pub name: Identifier,
    pub arguments: Vec<Expression>,
}

#[derive(Debug)]
pub struct MultipleConditionExpression {
    pub conditions: Vec<Expression>,
}

#[derive(Debug)]
pub struct ListExpression {
    pub items: Vec<Expression>,
}

#[derive(Debug)]
pub struct InkListLiteral {
    pub items: Vec<InkListItem>,
}

#[derive(Debug)]
pub struct InkListItem {
    pub origin: Option<String>,
    pub name: String,
}

pub struct InkListItemView {
    pub origin: Option<Seq<char>>,
    pub name: Seq<char>,
}

impl View for InkListItem {
    type V = InkListItemView;

    open spec fn view(&self) -> InkListItemView {
        InkListItemView { origin: crate::ink_parser::parser::opt_chars(self.origin), name: self.name@ }
    }
}

impl View for InkListLiteral {
    type V = Seq<InkListItemView>;

    open spec fn view(&self) -> Seq<InkListItemView> {
        seq_view(self.items@)
    }
}

pub enum ExpressionValueView {
    Int(int),
    Float(Seq<char>),
    Str(Seq<char>),
    Bool(bool),
    DivertTarget(InkPathView),
    VariablePointer(Seq<char>),
    InkList(Seq<InkListItemView>),
}

impl View for ExpressionValue {
    type V = ExpressionValueView;

    open spec fn view(&self) -> ExpressionValueView {
        match self {
            ExpressionValue::Int(n) => ExpressionValueView::Int(*n as int),
            ExpressionValue::Float(t) => ExpressionValueView::Float(t@),
            ExpressionValue::String(s) => ExpressionValueView::Str(s@),
            ExpressionValue::Bool(b) => ExpressionValueView::Bool(*b),
            ExpressionValue::DivertTarget(p) => ExpressionValueView::DivertTarget(p@),
            ExpressionValue::VariablePointer(v) => ExpressionValueView::VariablePointer(v@),
            ExpressionValue::InkList(l) => ExpressionValueView::InkList(l@),
        }
    }
}

pub struct VariableReferenceView {
    pub name: Seq<char>,
    pub is_divert_target: bool,
    pub is_read_count: bool,
    pub read_count_path: Option<InkPathView>,
    pub location: SourceLocationView,
}

pub enum ExpressionKindView {
    Literal(ExpressionValueView),
    VariableRef(VariableReferenceView),
    BinaryOp(Box<ExpressionView>, BinaryOperator, Box<ExpressionView>),
    UnaryOp(UnaryOperator, Box<ExpressionView>),
    FunctionCall(IdentifierView, Seq<ExpressionView>),
    List(Seq<ExpressionView>),
    InkListLiteral(Seq<InkListItemView>),
    DivertTarget(InkPathView),
    MultipleConditions(Seq<ExpressionView>),
}

pub struct ExpressionView {
    pub kind: ExpressionKindView,
    pub location: SourceLocationView,
}

pub open spec fn expr_view(e: Expression) -> ExpressionView
    decreases e,
{
    ExpressionView {
        kind: match e.kind {
            ExpressionKind::Literal(v) => ExpressionKindView::Literal(v@),
            ExpressionKind::VariableRef(r) => ExpressionKindView::VariableRef(r@),
            ExpressionKind::BinaryOp(b) => ExpressionKindView::BinaryOp(
                Box::new(expr_view(*b.left)),
                b.op,
                Box::new(expr_view(*b.right)),
            ),
            ExpressionKind::UnaryOp(u) => ExpressionKindView::UnaryOp(
                u.op,
                Box::new(expr_view(*u.inner)),
            ),
            ExpressionKind::FunctionCall(f) => ExpressionKindView::FunctionCall(
                f.name@,
                exprs_view(f.arguments@),
            ),
            ExpressionKind::List(l) => ExpressionKindView::List(exprs_view(l.items@)),
            ExpressionKind::InkListLiteral(l) => ExpressionKindView::InkListLiteral(l@),
            ExpressionKind::DivertTarget(p) => ExpressionKindView::DivertTarget(p@),
            ExpressionKind::MultipleConditions(m) => ExpressionKindView::MultipleConditions(
                exprs_view(m.conditions@),
            ),
        },
        location: e.location@,
    }
}

pub open spec fn exprs_view(s: Seq<Expression>) -> Seq<ExpressionView>
    decreases s,
{
    if s.len() == 0 {
        Seq::empty()
    } else {
        exprs_view(s.drop_last()).push(expr_view(s.last()))
    }
}

pub open spec fn opt_expr_view(e: Option<Expression>) -> Option<ExpressionView> {
    match e {
        Some(x) => Some(expr_view(x)),
        None => None,
    }
}

impl View for Expression {
    type V = ExpressionView;

    open spec fn view(&self) -> ExpressionView {
        expr_view(*self)
    }
}

// ---------------------------------------------------------------------------
// Variables
// ---------------------------------------------------------------------------

#[derive(Debug)]
pub struct VariableAssignment {
    pub identifier: Identifier,
    pub value: Option<Expression>,
    pub is_new_declaration: bool,
    pub is_global: bool,
    pub location: SourceLocation,
}

pub struct VariableAssignmentView {
    pub identifier: IdentifierView,
    pub value: Option<ExpressionView>,
    pub is_new_declaration: bool,
    pub is_global: bool,
    pub location: SourceLocationView,
}

impl View for VariableAssignment {
    type V = VariableAssignmentView;

    open spec fn view(&self) -> VariableAssignmentView {
        VariableAssignmentView {
            identifier: self.identifier@,
            value: opt_expr_view(self.value),
            is_new_declaration: self.is_new_declaration,
            is_global: self.is_global,
            location: self.location@,
        }
    }
}

#[derive(Debug)]
pub struct VariableReference {
    pub name: String,
    pub is_divert_target: bool,
    pub is_read_count: bool,
    pub read_count_path: Option<InkPath>,
    pub location: SourceLocation,
}

impl View for VariableReference {
    type V = VariableReferenceView;

    open spec fn view(&self) -> VariableReferenceView {
        VariableReferenceView {
            name: self.name@,
            is_divert_target: self.is_divert_target,
            is_read_count: self.is_read_count,
            read_count_path: opt_view(self.read_count_path),
            location: self.location@,
        }
    }
}

#[derive(Debug)]
pub struct ConstDeclaration {
    pub identifier: Identifier,
    pub value: ExpressionValue,
    pub location: SourceLocation,
}

pub struct ConstDeclarationView {
    pub identifier: IdentifierView,
    pub value: ExpressionValueView,
    pub location: SourceLocationView,
}

impl View for ConstDeclaration {
    type V = ConstDeclarationView;

    open spec fn view(&self) -> ConstDeclarationView {
        ConstDeclarationView {
            identifier: self.identifier@,
            value: self.value@,
            location: self.location@,
        }
    }
}

#[derive(Debug)]
pub struct VariableDeclaration {
    pub identifier: Identifier,
    pub initial_value: Option<ExpressionValue>,
}

pub struct VariableDeclarationView {
    pub identifier: IdentifierView,
    pub initial_value: Option<ExpressionValueView>,
}

impl View for VariableDeclaration {
    type V = VariableDeclarationView;

    open spec fn view(&self) -> VariableDeclarationView {
        VariableDeclarationView {
            identifier: self.identifier@,
            initial_value: opt_view(self.initial_value),
        }
    }
}

// ---------------------------------------------------------------------------
// Choices and gathers
// ---------------------------------------------------------------------------

#[derive(Debug)]
pub struct Choice {
    pub start_content: Option<ContentList>,
    pub option_only_content: Option<ContentList>,
    pub inner_content: ContentList,
    pub condition: Option<Expression>,
    pub once_only: bool,
    pub is_invisible_default: bool,
    pub indentation_depth: usize,
    pub identifier: Option<Identifier>,
    pub has_brackets: bool,
    pub location: SourceLocation,
}

pub struct ChoiceView {
    pub start_content: Option<ContentListView>,
    pub option_only_content: Option<ContentListView>,
    pub inner_content: ContentListView,
    pub condition: Option<ExpressionView>,
    pub once_only: bool,
    pub is_invisible_default: bool,
    pub indentation_depth: nat,
    pub identifier: Option<IdentifierView>,
    pub has_brackets: bool,
    pub location: SourceLocationView,
}

impl View for Choice {
    type V = ChoiceView;

    open spec fn view(&self) -> ChoiceView {
        ChoiceView {
            start_content: opt_view(self.start_content),
            option_only_content: opt_view(self.option_only_content),
            inner_content: self.inner_content@,
            condition: opt_expr_view(self.condition),
            once_only: self.once_only,
            is_invisible_default: self.is_invisible_default,
            indentation_depth: self.indentation_depth as nat,
            identifier: opt_view(self.identifier),
            has_brackets: self.has_brackets,
            location: self.location@,
        }
    }
}

#[derive(Debug)]
pub struct Gather {
    pub identifier: Option<Identifier>,
    pub depth: usize,
    pub content: Option<ContentList>,
    pub location: SourceLocation,
}

pub struct GatherView {
    pub identifier: Option<IdentifierView>,
    pub depth: nat,
    pub content: Option<ContentListView>,
    pub location: SourceLocationView,
}

impl View for Gather {
    type V = GatherView;

    open spec fn view(&self) -> GatherView {
        GatherView {
            identifier: opt_view(self.identifier),
            depth: self.depth as nat,
            content: opt_view(self.content),
            location: self.location@,
        }
    }
}

// ---------------------------------------------------------------------------
// Directives
// ---------------------------------------------------------------------------

#[derive(Debug)]
pub struct Directive {
    pub directive_type: DirectiveType,
    pub name: String,
    pub args: Vec<DirectiveArg>,
    pub modifiers: Vec<DirectiveModifier>,
    pub location: SourceLocation,
}

#[derive(Debug, Clone, Copy, PartialEq, Eq, Structural)]
pub enum DirectiveType {
    Action,
    Scene,
    Character,
    State,
    Event,
    Asset,
}

/// The directive type named by a word, if any.
pub open spec fn directive_type_named(s: Seq<char>) -> Option<DirectiveType> {
    if s == "action"@ {
        Some(DirectiveType::Action)
    } else if s == "scene"@ {
        Some(DirectiveType::Scene)
    } else if s == "character"@ {
        Some(DirectiveType::Character)
    } else if s == "state"@ {
        Some(DirectiveType::State)
    } else if s == "event"@ {
        Some(DirectiveType::Event)
    } else if s == "asset"@ {
        Some(DirectiveType::Asset)
    } else {
        None
    }
}

/// Reading back the word of a directive type gives the type again.
pub proof fn law_directive_type_round_trip(t: DirectiveType)
    ensures
        directive_type_named(directive_type_name(t)) == Some(t),
{
    reveal_strlit("action");
    reveal_strlit("scene");
    reveal_strlit("character");
    reveal_strlit("state");
    reveal_strlit("event");
    reveal_strlit("asset");
    match t {
        DirectiveType::Action => {
            assert("action"@.len() == 6);
        },
        DirectiveType::Scene => {
            assert("scene"@.len() == 5);
            assert("scene"@[0] != "action"@[0]);
        },
        DirectiveType::Character => {
            assert("character"@.len() == 9);
        },
        DirectiveType::State => {
            assert("state"@.len() == 5);
            assert("state"@[1] != "scene"@[1]);
        },
        DirectiveType::Event => {
            assert("event"@.len() == 5);
            assert("event"@[0] != "scene"@[0]);
            assert("event"@[0] != "state"@[0]);
        },
        DirectiveType::Asset => {
            assert("asset"@.len() == 5);
            assert("asset"@[0] != "scene"@[0]);
            assert("asset"@[0] != "state"@[0]);
            assert("asset"@[0] != "event"@[0]);
        },
    }
}

/// The word naming a directive type.
pub open spec fn directive_type_name(t: DirectiveType) -> Seq<char> {
    match t {
        DirectiveType::Action => "action"@,
        DirectiveType::Scene => "scene"@,
        DirectiveType::Character => "character"@,
        DirectiveType::State => "state"@,
        DirectiveType::Event => "event"@,
        DirectiveType::Asset => "asset"@,
    }
}

impl DirectiveType {
    pub fn from_str(s: &str) -> (r: Option<Self>)
        ensures
            r == directive_type_named(s@),
    {
        if crate::text::str_equal(s, "action") {
            Some(DirectiveType::Action)
        } else if crate::text::str_equal(s, "scene") {
            Some(DirectiveType::Scene)
        } else if crate::text::str_equal(s, "character") {
            Some(DirectiveType::Character)
        } else if crate::text::str_equal(s, "state") {
            Some(DirectiveType::State)
        } else if crate::text::str_equal(s, "event") {
            Some(DirectiveType::Event)
        } else if crate::text::str_equal(s, "asset") {
            Some(DirectiveType::Asset)
        } else {
            None
        }
    }

    pub fn as_str(&self) -> (r: &'static str)
        ensures
            r@ == directive_type_name(*self),
    {
        match self {
            DirectiveType::Action => "action",
            DirectiveType::Scene => "scene",
            DirectiveType::Character => "character",
            DirectiveType::State => "state",
            DirectiveType::Event => "event",
            DirectiveType::Asset => "asset",
        }
    }
}

#[derive(Debug)]
pub struct DirectiveArg {
    pub value: String,
    pub location: SourceLocation,
}

pub struct DirectiveArgView {
    pub value: Seq<char>,
    pub location: SourceLocationView,
}

impl View for DirectiveArg {
    type V = DirectiveArgView;

    open spec fn view(&self) -> DirectiveArgView {
        DirectiveArgView { value: self.value@, location: self.location@ }
    }
}

#[derive(Debug)]
pub struct DirectiveModifier {
    pub key: String,
    pub value: String,
    pub location: SourceLocation,
}

pub struct DirectiveModifierView {
    pub key: Seq<char>,
    pub value: Seq<char>,
    pub location: SourceLocationView,
}

impl View for DirectiveModifier {
    type V = DirectiveModifierView;

    open spec fn view(&self) -> DirectiveModifierView {
        DirectiveModifierView { key: self.key@, value: self.value@, location: self.location@ }
    }
}

pub struct DirectiveView {
    pub directive_type: DirectiveType,
    pub name: Seq<char>,
    pub args: Seq<DirectiveArgView>,
    pub modifiers: Seq<DirectiveModifierView>,
    pub location: SourceLocationView,
}

impl View for Directive {
    type V = DirectiveView;

    open spec fn view(&self) -> DirectiveView {
        DirectiveView {
            directive_type: self.directive_type,
            name: self.name@,
            args: seq_view(self.args@),
            modifiers: seq_view(self.modifiers@),
            location: self.location@,
        }
    }
}

// ---------------------------------------------------------------------------
// Knots, lists, sequences, externals
// ---------------------------------------------------------------------------

#[derive(Debug)]
pub struct FlowArgument {
    pub identifier: Identifier,
    pub is_by_reference: bool,
    pub is_divert_target: bool,
}

pub struct FlowArgumentView {
    pub identifier: IdentifierView,
    pub is_by_reference: bool,
    pub is_divert_target: bool,
}

impl View for FlowArgument {
    type V = FlowArgumentView;

    open spec fn view(&self) -> FlowArgumentView {
        FlowArgumentView {
            identifier: self.identifier@,
            is_by_reference: self.is_by_reference,
            is_divert_target: self.is_divert_target,
        }
    }
}

#[derive(Debug)]
pub struct Knot {
    pub identifier: Identifier,
    pub content: Vec<StoryNode>,
    pub arguments: Vec<FlowArgument>,
    pub is_function: bool,
    pub location: SourceLocation,
}

pub struct KnotView {
    pub identifier: IdentifierView,
    pub content: Seq<StoryNodeView>,
    pub arguments: Seq<FlowArgumentView>,
    pub is_function: bool,
    pub location: SourceLocationView,
}

#[derive(Debug)]
pub struct Stitch {
    pub identifier: Identifier,
    pub content: Vec<StoryNode>,
    pub arguments: Vec<FlowArgument>,
    pub is_function: bool,
    pub location: SourceLocation,
}

#[derive(Debug)]
pub struct ListItemDeclaration {
    pub name: Identifier,
    pub value: Option<i32>,
}

pub struct ListItemDeclarationView {
    pub name: IdentifierView,
    pub value: Option<i32>,
}

impl View for ListItemDeclaration {
    type V = ListItemDeclarationView;

    open spec fn view(&self) -> ListItemDeclarationView {
        ListItemDeclarationView { name: self.name@, value: self.value }
    }
}

#[derive(Debug)]
pub struct ListDeclaration {
    pub identifier: Identifier,
    pub items: Vec<ListItemDeclaration>,
    pub location: SourceLocation,
}

pub struct ListDeclarationView {
    pub identifier: IdentifierView,
    pub items: Seq<ListItemDeclarationView>,
    pub location: SourceLocationView,
}

impl View for ListDeclaration {
    type V = ListDeclarationView;

    open spec fn view(&self) -> ListDeclarationView {
        ListDeclarationView {
            identifier: self.identifier@,
            items: seq_view(self.items@),
            location: self.location@,
        }
    }
}

#[derive(Debug)]
pub struct ExternalDeclaration {
    pub identifier: Identifier,
    pub argument_names: Vec<String>,
    pub location: SourceLocation,
}

pub struct ExternalDeclarationView {
    pub identifier: IdentifierView,
    pub argument_names: Seq<Seq<char>>,
    pub location: SourceLocationView,
}

impl View for ExternalDeclaration {
    type V = ExternalDeclarationView;

    open spec fn view(&self) -> ExternalDeclarationView {
        ExternalDeclarationView {
            identifier: self.identifier@,
            argument_names: seq_view(self.argument_names@),
            location: self.location@,
        }
    }
}

#[derive(Debug, Clone, Copy, PartialEq, Eq, Structural)]
pub enum SequenceType {
    Cycle,
    Shuffle,
    Once,
    Stopping,
}

#[derive(Debug)]
pub struct SequenceElement {
    pub content: ContentList,
    pub condition: Option<Expression>,
}

pub struct SequenceElementView {
    pub content: ContentListView,
    pub condition: Option<ExpressionView>,
}

impl View for SequenceElement {
    type V = SequenceElementView;

    open spec fn view(&self) -> SequenceElementView {
        SequenceElementView { content: self.content@, condition: opt_expr_view(self.condition) }
    }
}

#[derive(Debug)]
pub struct Sequence {
    pub elements: Vec<SequenceElement>,
    pub sequence_type: SequenceType,
    pub location: SourceLocation,
}

pub struct SequenceView {
    pub elements: Seq<SequenceElementView>,
    pub sequence_type: SequenceType,
    pub location: SourceLocationView,
}

impl View for Sequence {
    type V = SequenceView;

    open spec fn view(&self) -> SequenceView {
        SequenceView {
            elements: seq_view(self.elements@),
            sequence_type: self.sequence_type,
            location: self.location@,
        }
    }
}

// ---------------------------------------------------------------------------
// Conditionals, logic blocks and story nodes
// ---------------------------------------------------------------------------

#[derive(Debug)]
pub struct Conditional {
    pub branches: Vec<ConditionalBranch>,
    pub location: SourceLocation,
}

#[derive(Debug)]
pub struct ConditionalBranch {
    pub condition: Option<Expression>,
    pub content: Vec<StoryNode>,
    pub is_else: bool,
    pub location: SourceLocation,
}

pub struct ConditionalBranchView {
    pub condition: Option<ExpressionView>,
    pub content: Seq<StoryNodeView>,
    pub is_else: bool,
    pub location: SourceLocationView,
}

pub struct ConditionalView {
    pub branches: Seq<ConditionalBranchView>,
    pub location: SourceLocationView,
}

#[derive(Debug)]
pub struct LogicBlock {
    pub content: Vec<StoryNode>,
    pub location: SourceLocation,
}

pub struct LogicBlockView {
    pub content: Seq<StoryNodeView>,
    pub location: SourceLocationView,
}

/// Any node at the top level of a story.
#[derive(Debug)]
pub enum StoryNode {
    Knot(Knot),
    Text(Text),
    Choice(Choice),
    Gather(Gather),
    Divert(Divert),
    Conditional(Conditional),
    VariableAssignment(VariableAssignment),
    ConstDeclaration(ConstDeclaration),
    ListDeclaration(ListDeclaration),
    Tag(Tag),
    Logic(LogicBlock),
    AuthorWarning(String),
    Sequence(Sequence),
    Include(String),
    Directive(Directive),
}

pub enum StoryNodeView {
    Knot(KnotView),
    Text(TextView),
    Choice(ChoiceView),
    Gather(GatherView),
    Divert(DivertView),
    Conditional(ConditionalView),
    VariableAssignment(VariableAssignmentView),
    ConstDeclaration(ConstDeclarationView),
    ListDeclaration(ListDeclarationView),
    Tag(TagView),
    Logic(LogicBlockView),
    AuthorWarning(Seq<char>),
    Sequence(SequenceView),
    Include(Seq<char>),
    Directive(DirectiveView),
}

pub open spec fn node_view(n: StoryNode) -> StoryNodeView
    decreases n,
{
    match n {
        StoryNode::Knot(k) => StoryNodeView::Knot(
            KnotView {
                identifier: k.identifier@,
                content: nodes_view(k.content@),
                arguments: seq_view(k.arguments@),
                is_function: k.is_function,
                location: k.location@,
            },
        ),
        StoryNode::Text(t) => StoryNodeView::Text(t@),
        StoryNode::Choice(c) => StoryNodeView::Choice(c@),
        StoryNode::Gather(g) => StoryNodeView::Gather(g@),
        StoryNode::Divert(d) => StoryNodeView::Divert(d@),
        StoryNode::Conditional(c) => StoryNodeView::Conditional(
            ConditionalView { branches: branches_view(c.branches@), location: c.location@ },
        ),
        StoryNode::VariableAssignment(v) => StoryNodeView::VariableAssignment(v@),
        StoryNode::ConstDeclaration(c) => StoryNodeView::ConstDeclaration(c@),
        StoryNode::ListDeclaration(l) => StoryNodeView::ListDeclaration(l@),
        StoryNode::Tag(t) => StoryNodeView::Tag(t@),
        StoryNode::Logic(l) => StoryNodeView::Logic(
            LogicBlockView { content: nodes_view(l.content@), location: l.location@ },
        ),
        StoryNode::AuthorWarning(s) => StoryNodeView::AuthorWarning(s@),
        StoryNode::Sequence(s) => StoryNodeView::Sequence(s@),
        StoryNode::Include(s) => StoryNodeView::Include(s@),
        StoryNode::Directive(d) => StoryNodeView::Directive(d@),
    }
}

pub open spec fn nodes_view(s: Seq<StoryNode>) -> Seq<StoryNodeView>
    decreases s,
{
    if s.len() == 0 {
        Seq::empty()
    } else {
        nodes_view(s.drop_last()).push(node_view(s.last()))
    }
}

pub open spec fn branches_view(s: Seq<ConditionalBranch>) -> Seq<ConditionalBranchView>
    decreases s,
{
    if s.len() == 0 {
        Seq::empty()
    } else {
        branches_view(s.drop_last()).push(
            ConditionalBranchView {
                condition: opt_expr_view(s.last().condition),
                content: nodes_view(s.last().content@),
                is_else: s.last().is_else,
                location: s.last().location@,
            },
        )
    }
}

/// The view of a sequence of expressions has one view per expression.
pub proof fn lemma_exprs_view_len(s: Seq<Expression>)
    ensures
        exprs_view(s).len() == s.len(),
        forall|i: int| 0 <= i < s.len() ==> #[trigger] exprs_view(s)[i] == expr_view(s[i]),
    decreases s.len(),
{
    if s.len() > 0 {
        lemma_exprs_view_len(s.drop_last());
        assert forall|i: int| 0 <= i < s.len() - 1 implies s.drop_last()[i] == s[i] by {}
    }
}

/// The view of a sequence of nodes has one view per node.
pub proof fn lemma_nodes_view_len(s: Seq<StoryNode>)
    ensures
        nodes_view(s).len() == s.len(),
        forall|i: int| 0 <= i < s.len() ==> #[trigger] nodes_view(s)[i] == node_view(s[i]),
    decreases s.len(),
{
    if s.len() > 0 {
        lemma_nodes_view_len(s.drop_last());
        assert forall|i: int| 0 <= i < s.len() - 1 implies s.drop_last()[i] == s[i] by {}
    }
}

/// The view of a sequence of branches has one view per branch.
pub proof fn lemma_branches_view_len(s: Seq<ConditionalBranch>)
    ensures
        branches_view(s).len() == s.len(),
        forall|i: int|
            0 <= i < s.len() ==> #[trigger] branches_view(s)[i] == (ConditionalBranchView {
                condition: opt_expr_view(s[i].condition),
                content: nodes_view(s[i].content@),
                is_else: s[i].is_else,
                location: s[i].location@,
            }),
    decreases s.len(),
{
    if s.len() > 0 {
        lemma_branches_view_len(s.drop_last());
        assert forall|i: int| 0 <= i < s.len() - 1 implies s.drop_last()[i] == s[i] by {}
    }
}

/// Viewing a sequence of nodes with one more at its end.
pub proof fn lemma_nodes_view_push(s: Seq<StoryNode>, x: StoryNode)
    ensures
        nodes_view(s.push(x)) == nodes_view(s).push(node_view(x)),
{
    assert(s.push(x).drop_last() =~= s);
}

/// Viewing a sequence of branches with one more at its end.
pub proof fn lemma_branches_view_push(s: Seq<ConditionalBranch>, x: ConditionalBranch)
    ensures
        branches_view(s.push(x)) == branches_view(s).push(
            ConditionalBranchView {
                condition: opt_expr_view(x.condition),
                content: nodes_view(x.content@),
                is_else: x.is_else,
                location: x.location@,
            },
        ),
{
    assert(s.push(x).drop_last() =~= s);
}

impl View for StoryNode {
    type V = StoryNodeView;

    open spec fn view(&self) -> StoryNodeView {
        node_view(*self)
    }
}

pub open spec fn opt_node_view(n: Option<StoryNode>) -> Option<StoryNodeView> {
    match n {
        Some(x) => Some(node_view(x)),
        None => None,
    }
}

/// The top-level parsed story.
#[derive(Debug)]
pub struct ParsedStory {
    pub content: Vec<StoryNode>,
    pub global_variables: Vec<VariableDeclaration>,
    pub list_declarations: Vec<ListDeclaration>,
    pub external_declarations: Vec<ExternalDeclaration>,
    pub errors: Vec<InkError>,
    pub is_include: bool,
}

pub struct ParsedStoryView {
    pub content: Seq<StoryNodeView>,
    pub global_variables: Seq<VariableDeclarationView>,
    pub list_declarations: Seq<ListDeclarationView>,
    pub external_declarations: Seq<ExternalDeclarationView>,
    pub errors: Seq<InkErrorView>,
    pub is_include: bool,
}

impl View for ParsedStory {
    type V = ParsedStoryView;

    open spec fn view(&self) -> ParsedStoryView {
        ParsedStoryView {
            content: nodes_view(self.content@),
            global_variables: seq_view(self.global_variables@),
            list_declarations: seq_view(self.list_declarations@),
            external_declarations: seq_view(self.external_declarations@),
            errors: seq_view(self.errors@),
            is_include: self.is_include,
        }
    }
}

/// Some error (not a warning) is among `errors`.
pub open spec fn has_error(errors: Seq<InkErrorView>) -> bool {
    exists|i: int| 0 <= i < errors.len() && (#[trigger] errors[i]).error_type == ErrorType::Error
}

impl ParsedStory {
    pub fn has_errors(&self) -> (r: bool)
        ensures
            r == has_error(self@.errors),
    {
        let mut i: usize = 0;
        while i < self.errors.len()
            invariant
                i <= self.errors.len(),
                forall|j: int| 0 <= j < i ==> (#[trigger] self@.errors[j]).error_type != ErrorType::Error,
            decreases self.errors.len() - i,
        {
            if self.errors[i].is_error() {
                assert(self@.errors[i as int].error_type == ErrorType::Error);
                return true;
            }
            i = i + 1;
        }
        false
    }
}

} // verus!
