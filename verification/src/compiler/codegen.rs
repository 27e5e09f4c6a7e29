//! Code generation: from the parsed story to the runtime story.
//!
//! Parse ink source to a `ParsedStory`, compile it to a `Story` here, then
//! serialize the `Story` to JSON.

use vstd::prelude::*;
use crate::compiler::runtime_types::{ChoiceFlags, ChoicePoint, ChoicePointView, Container, ContainerFlags, ContainerView, ControlCommand, Divert, DivertView, InkObject, InkObjectView, ListDefinition, ListDefinitionView, ListItem, NativeFuncCall, Story, StoryView, Tag, VariableAssignment, VariableAssignmentView, VariableReference, VariableReferenceView, empty_container, empty_story, named_insert, normalize_name, plain_divert, story_add_knot, underscored};
use crate::ink_parser::ir::{BinaryOperator, Choice, ChoiceView, Conditional, ConditionalBranchView, ContentItem, ContentItemView, DivertTarget, DivertTargetView, ExpressionKind, ExpressionKindView, ExpressionValue, ExpressionValueView, ExpressionView, Gather, GatherView, InkPath, Knot, KnotView, ListDeclaration, LogicBlockView, ConditionalView, ListDeclarationView, ParsedStory, ParsedStoryView, Sequence, SequenceView, StoryNode, StoryNodeView, UnaryOperator, branches_view, expr_view, nodes_view, path_text, seq_view};
use crate::text::{decimal, push_decimal};

verus! {

// ---------------------------------------------------------------------------
// Paths, operators, diverts, assignments
// ---------------------------------------------------------------------------

/// Convert InkPath to a dot-separated string.
pub fn ink_path_to_string(path: &InkPath) -> (r: String)
    ensures
        r@ == path_text(path@.components),
{
    path.to_string_path()
}

/// The native function of a binary operator.
pub open spec fn binary_native(op: BinaryOperator) -> NativeFuncCall {
    match op {
        BinaryOperator::Add => NativeFuncCall::Add,
        BinaryOperator::Sub => NativeFuncCall::Subtract,
        BinaryOperator::Mul => NativeFuncCall::Multiply,
        BinaryOperator::Div => NativeFuncCall::Divide,
        BinaryOperator::Mod => NativeFuncCall::Modulo,
        BinaryOperator::Equal => NativeFuncCall::Equal,
        BinaryOperator::NotEqual => NativeFuncCall::NotEqual,
        BinaryOperator::Greater => NativeFuncCall::Greater,
        BinaryOperator::Less => NativeFuncCall::Less,
        BinaryOperator::GreaterEqual => NativeFuncCall::GreaterEq,
        BinaryOperator::LessEqual => NativeFuncCall::LessEq,
        BinaryOperator::And => NativeFuncCall::And,
        BinaryOperator::Or => NativeFuncCall::Or,
        BinaryOperator::Min => NativeFuncCall::Min,
        BinaryOperator::Max => NativeFuncCall::Max,
    }
}

/// The native function of a unary operator.
pub open spec fn unary_native(op: UnaryOperator) -> NativeFuncCall {
    match op {
        UnaryOperator::Negate => NativeFuncCall::Negate,
        UnaryOperator::Not => NativeFuncCall::Not,
    }
}

pub fn binary_operator_to_native_func(op: &BinaryOperator) -> (r: Option<NativeFuncCall>)
    ensures
        r == Some(binary_native(*op)),
{
    match op {
        BinaryOperator::Add => Some(NativeFuncCall::Add),
        BinaryOperator::Sub => Some(NativeFuncCall::Subtract),
        BinaryOperator::Mul => Some(NativeFuncCall::Multiply),
        BinaryOperator::Div => Some(NativeFuncCall::Divide),
        BinaryOperator::Mod => Some(NativeFuncCall::Modulo),
        BinaryOperator::Equal => Some(NativeFuncCall::Equal),
        BinaryOperator::NotEqual => Some(NativeFuncCall::NotEqual),
        BinaryOperator::Greater => Some(NativeFuncCall::Greater),
        BinaryOperator::Less => Some(NativeFuncCall::Less),
        BinaryOperator::GreaterEqual => Some(NativeFuncCall::GreaterEq),
        BinaryOperator::LessEqual => Some(NativeFuncCall::LessEq),
        BinaryOperator::And => Some(NativeFuncCall::And),
        BinaryOperator::Or => Some(NativeFuncCall::Or),
        BinaryOperator::Min => Some(NativeFuncCall::Min),
        BinaryOperator::Max => Some(NativeFuncCall::Max),
    }
}

pub fn unary_operator_to_native_func(op: &UnaryOperator) -> (r: Option<NativeFuncCall>)
    ensures
        r == Some(unary_native(*op)),
{
    match op {
        UnaryOperator::Negate => Some(NativeFuncCall::Negate),
        UnaryOperator::Not => Some(NativeFuncCall::Not),
    }
}

/// The text a divert goes to: its path joined by `.`, or the variable.
pub open spec fn divert_target_text(t: DivertTargetView) -> Seq<char> {
    match t {
        DivertTargetView::Path(p) => path_text(p.components),
        DivertTargetView::Variable(v) => v,
    }
}

/// A parsed divert as a runtime divert: a thread or tunnel becomes a tunnel
/// divert, anything else a plain one; the condition flag carries over.
pub open spec fn divert_object(d: crate::ink_parser::ir::DivertView) -> InkObjectView {
    let target = Some(divert_target_text(d.target));
    InkObjectView::Divert(
        DivertView {
            target,
            is_tunnel: d.is_thread || d.is_tunnel,
            is_conditional: d.is_conditional,
            ..plain_divert()
        },
    )
}

/// Compile a divert from the parser's Divert to a runtime Divert.
fn compile_divert(d: &crate::ink_parser::ir::Divert) -> (r: InkObject)
    ensures
        r@ == divert_object(d@),
{
    let target_str = match &d.target {
        DivertTarget::Path(p) => ink_path_to_string(p),
        DivertTarget::Variable(v) => String::from_str(v.as_str()),
    };
    let mut div = if d.is_thread {
        Divert::tunnel(target_str.as_str())
    } else if d.is_tunnel {
        Divert::tunnel(target_str.as_str())
    } else {
        Divert::new(target_str.as_str())
    };
    div.is_conditional = d.is_conditional;
    InkObject::Divert(div)
}

/// An assignment compiles to a global `VAR=` assignment of its variable.
pub open spec fn assignment_object(va: crate::ink_parser::ir::VariableAssignmentView) -> InkObjectView {
    InkObjectView::VariableAssignment(
        VariableAssignmentView { varname: va.identifier.name, is_global: true, context_index: 0 },
    )
}

fn compile_var_assignment(va: &crate::ink_parser::ir::VariableAssignment) -> (r: InkObject)
    ensures
        r@ == assignment_object(va@),
{
    let is_reassign = va.is_new_declaration;
    let assignment = VariableAssignment::global(va.identifier.name.as_str(), is_reassign);
    InkObject::VariableAssignment(assignment)
}

/// A variable reference: a read count of its path (or name), or a plain
/// reference.
pub open spec fn var_ref_object(vr: crate::ink_parser::ir::VariableReferenceView) -> InkObjectView {
    if vr.is_read_count {
        let path = match vr.read_count_path {
            Some(p) => path_text(p.components),
            None => vr.name,
        };
        InkObjectView::VariableReference(
            VariableReferenceView { varname: path, context_index: -1i32, is_read_count: true },
        )
    } else {
        InkObjectView::VariableReference(
            VariableReferenceView { varname: vr.name, context_index: -1i32, is_read_count: false },
        )
    }
}

pub fn compile_var_reference(vr: &crate::ink_parser::ir::VariableReference) -> (r: InkObject)
    ensures
        r@ == var_ref_object(vr@),
{
    if vr.is_read_count {
        let path_str = match &vr.read_count_path {
            Some(path) => ink_path_to_string(path),
            None => String::from_str(vr.name.as_str()),
        };
        InkObject::VariableReference(VariableReference::read_count(path_str.as_str()))
    } else {
        InkObject::VariableReference(VariableReference::new(vr.name.as_str()))
    }
}

// ---------------------------------------------------------------------------
// Expressions
// ---------------------------------------------------------------------------

/// The objects that evaluate an expression, operands before operators.
/// Lists, list literals, divert-target expressions and multiple conditions
/// produce nothing.
pub open spec fn expr_objects(e: ExpressionView) -> Seq<InkObjectView>
    decreases e,
{
    match e.kind {
        ExpressionKindView::Literal(v) => match v {
            ExpressionValueView::Int(n) => seq![InkObjectView::Int(n as i64)],
            ExpressionValueView::Float(t) => seq![InkObjectView::Float(t)],
            ExpressionValueView::Str(s) => seq![InkObjectView::String(s)],
            ExpressionValueView::Bool(b) => seq![InkObjectView::Int(if b { 1 } else { 0 })],
            ExpressionValueView::DivertTarget(p) => seq![InkObjectView::DivertTarget(path_text(p.components))],
            ExpressionValueView::VariablePointer(name) => seq![
                InkObjectView::VariablePointer { varname: name, context_index: -1i32 },
            ],
            ExpressionValueView::InkList(_) => Seq::empty(),
        },
        ExpressionKindView::VariableRef(vr) => seq![var_ref_object(vr)],
        ExpressionKindView::BinaryOp(left, op, right) => expr_objects(*left) + expr_objects(*right)
            + seq![InkObjectView::NativeFuncCall(binary_native(op))],
        ExpressionKindView::UnaryOp(op, inner) => expr_objects(*inner) + seq![
            InkObjectView::NativeFuncCall(unary_native(op)),
        ],
        ExpressionKindView::FunctionCall(name, args) => seq![
            InkObjectView::Divert(
                DivertView {
                    target: Some(name.name),
                    is_external: true,
                    external_args: Some(args.len() as i32),
                    is_function_call: true,
                    ..plain_divert()
                },
            ),
        ],
        _ => Seq::empty(),
    }
}

/// An expression evaluated between `ev` and `/ev`.
pub open spec fn expr_stack(e: ExpressionView) -> Seq<InkObjectView> {
    seq![InkObjectView::ControlCommand(ControlCommand::EvalStart)] + expr_objects(e) + seq![
        InkObjectView::ControlCommand(ControlCommand::EvalEnd),
    ]
}

fn push_object(out: &mut Vec<InkObject>, o: InkObject)
    ensures
        crate::compiler::runtime_types::objs_view(final(out)@) == crate::compiler::runtime_types::objs_view(old(out)@).push(o@),
{
    let ghost before = out@;
    out.push(o);
    proof {
        assert(out@ =~= before.push(out@.last()));
        crate::compiler::runtime_types::lemma_objs_view_push(before, out@.last());
    }
}

fn compile_expr_value(e: &crate::ink_parser::ir::Expression, out: &mut Vec<InkObject>)
    ensures
        crate::compiler::runtime_types::objs_view(final(out)@) == crate::compiler::runtime_types::objs_view(old(out)@)
            + expr_objects(expr_view(*e)),
    decreases e,
{
    let ghost before = crate::compiler::runtime_types::objs_view(out@);
    match &e.kind {
        ExpressionKind::Literal(v) => {
            match v {
                ExpressionValue::Int(n) => push_object(out, InkObject::Int(*n)),
                ExpressionValue::Float(f) => push_object(out, InkObject::Float(String::from_str(f.as_str()))),
                ExpressionValue::String(s) => push_object(out, InkObject::String(String::from_str(s.as_str()))),
                ExpressionValue::Bool(b) => push_object(out, InkObject::Int(if *b { 1 } else { 0 })),
                ExpressionValue::DivertTarget(path) => {
                    push_object(out, InkObject::DivertTarget(ink_path_to_string(path)));
                },
                ExpressionValue::VariablePointer(name) => {
                    push_object(
                        out,
                        InkObject::VariablePointer {
                            varname: String::from_str(name.as_str()),
                            context_index: -1,
                        },
                    );
                },
                ExpressionValue::InkList(_) => {},
            }
        },
        ExpressionKind::VariableRef(vr) => {
            push_object(out, compile_var_reference(vr));
        },
        ExpressionKind::BinaryOp(binary_op) => {
            compile_expr_value(&binary_op.left, out);
            compile_expr_value(&binary_op.right, out);
            if let Some(nf) = binary_operator_to_native_func(&binary_op.op) {
                push_object(out, InkObject::NativeFuncCall(nf));
            }
        },
        ExpressionKind::UnaryOp(unary_op) => {
            compile_expr_value(&unary_op.inner, out);
            if let Some(nf) = unary_operator_to_native_func(&unary_op.op) {
                push_object(out, InkObject::NativeFuncCall(nf));
            }
        },
        ExpressionKind::FunctionCall(fc) => {
            // External function call
            let n = fc.arguments.len() as i32;
            assert(crate::ink_parser::ir::exprs_view(fc.arguments@).len() == fc.arguments@.len()) by {
                crate::ink_parser::ir::lemma_exprs_view_len(fc.arguments@);
            }
            push_object(out, InkObject::Divert(Divert::external(fc.name.name.as_str(), n)));
        },
        _ => {},
    }
    assert(crate::compiler::runtime_types::objs_view(out@) =~= before + expr_objects(expr_view(*e)));
}

/// Compile an expression onto the evaluation stack.
pub fn compile_expression_to_stack(expr: &crate::ink_parser::ir::Expression) -> (r: Vec<InkObject>)
    ensures
        crate::compiler::runtime_types::objs_view(r@) == expr_stack(expr_view(*expr)),
{
    let mut result: Vec<InkObject> = Vec::new();
    assert(crate::compiler::runtime_types::objs_view(result@) =~= Seq::<InkObjectView>::empty());
    push_object(&mut result, InkObject::ControlCommand(ControlCommand::EvalStart));
    compile_expr_value(expr, &mut result);
    push_object(&mut result, InkObject::ControlCommand(ControlCommand::EvalEnd));
    assert(crate::compiler::runtime_types::objs_view(result@) =~= expr_stack(expr_view(*expr)));
    result
}

// ---------------------------------------------------------------------------
// Containers and content
// ---------------------------------------------------------------------------

/// Flags of a container whose visits and turns are counted from its start.
pub open spec fn counted_flags() -> u32 {
    7
}

fn counted() -> (r: ContainerFlags)
    ensures
        r.bits() == counted_flags(),
{
    assert(ContainerFlags::VISITS | ContainerFlags::TURNS | ContainerFlags::COUNT_START_ONLY == 7u32)
        by (bit_vector);
    ContainerFlags::from_bits(
        ContainerFlags::VISITS | ContainerFlags::TURNS | ContainerFlags::COUNT_START_ONLY,
    )
}

/// A container with one more object at the end of its content.
pub open spec fn with_object(c: ContainerView, o: InkObjectView) -> ContainerView {
    ContainerView { content: c.content.push(o), ..c }
}

/// A container with more objects at the end of its content.
pub open spec fn with_objects(c: ContainerView, os: Seq<InkObjectView>) -> ContainerView {
    ContainerView { content: c.content + os, ..c }
}

fn push_objects(container: &mut Container, objs: Vec<InkObject>)
    ensures
        final(container)@ == with_objects(old(container)@, crate::compiler::runtime_types::objs_view(objs@)),
{
    let mut objs = objs;
    let ghost all = objs@;
    assert(all.len() == objs.len());
    let mut k: usize = 0;
    let ghost start = container@;
    proof {
        crate::compiler::runtime_types::lemma_objs_view_len(all);
    }
    while objs.len() > 0
        invariant
            objs@ == all.skip(k as int),
            k <= all.len(),
            objs@.len() == all.len() - k,
            all.len() <= usize::MAX,
            crate::compiler::runtime_types::objs_view(all).len() == all.len(),
            forall|j: int|
                0 <= j < all.len() ==> #[trigger] crate::compiler::runtime_types::objs_view(all)[j]
                    == crate::compiler::runtime_types::obj_view(all[j]),
            container@ == with_objects(start, crate::compiler::runtime_types::objs_view(all).take(k as int)),
        decreases objs.len(),
    {
        let o = objs.remove(0);
        assert(o == all[k as int]);
        container.push(o);
        proof {
            assert(crate::compiler::runtime_types::objs_view(all).take(k + 1) =~= crate::compiler::runtime_types::objs_view(
                all,
            ).take(k as int).push(crate::compiler::runtime_types::obj_view(o)));
            assert(start.content + crate::compiler::runtime_types::objs_view(all).take(k + 1) =~= (start.content
                + crate::compiler::runtime_types::objs_view(all).take(k as int)).push(o@));
        }
        k = k + 1;
        assert(objs@ =~= all.skip(k as int));
    }
    assert(crate::compiler::runtime_types::objs_view(all).take(k as int) =~= crate::compiler::runtime_types::objs_view(all));
}

/// The objects of one content item: text, an evaluated expression, a
/// divert, an empty tag, or a no-op for glue.
pub open spec fn item_objects(it: ContentItemView) -> Seq<InkObjectView> {
    match it {
        ContentItemView::Text(t) => seq![InkObjectView::String(t.text)],
        ContentItemView::Expression(e) => expr_stack(e),
        ContentItemView::Divert(d) => seq![divert_object(d)],
        ContentItemView::Tag(_) => seq![InkObjectView::Tag(""@)],
        ContentItemView::Glue => seq![InkObjectView::ControlCommand(ControlCommand::NoOp)],
    }
}

pub open spec fn items_objects(items: Seq<ContentItemView>) -> Seq<InkObjectView>
    decreases items.len(),
{
    if items.len() == 0 {
        Seq::empty()
    } else {
        items_objects(items.drop_last()) + item_objects(items.last())
    }
}

fn compile_content_items(items: &Vec<ContentItem>, container: &mut Container)
    ensures
        final(container)@ == with_objects(old(container)@, items_objects(seq_view(items@))),
{
    let mut i: usize = 0;
    while i < items.len()
        invariant
            i <= items@.len(),
            container@ == with_objects(old(container)@, items_objects(seq_view(items@).take(i as int))),
        decreases items.len() - i,
    {
        let ghost before = container@;
        match &items[i] {
            ContentItem::Text(t) => {
                container.push(InkObject::String(String::from_str(t.text.as_str())));
            },
            ContentItem::Expression(expr) => {
                let objs = compile_expression_to_stack(expr);
                push_objects(container, objs);
            },
            ContentItem::Divert(d) => {
                container.push(compile_divert(d));
            },
            ContentItem::Tag(_tag) => {
                container.push(InkObject::Tag(Tag::new("")));
            },
            ContentItem::Glue => {
                container.push(InkObject::ControlCommand(ControlCommand::NoOp));
            },
        }
        proof {
            let v = seq_view(items@);
            assert(v.take(i + 1).drop_last() =~= v.take(i as int));
            assert(v.take(i + 1).last() == items@[i as int]@);
            assert(container@.content =~= old(container)@.content + items_objects(v.take(i + 1)));
        }
        i = i + 1;
    }
    assert(seq_view(items@).take(i as int) =~= seq_view(items@));
}

/// The container of a gather: counted, with the gather's content and `end`.
pub open spec fn gather_container(g: GatherView) -> ContainerView {
    let items = match g.content {
        Some(c) => items_objects(c.items),
        None => Seq::empty(),
    };
    ContainerView {
        content: items.push(InkObjectView::ControlCommand(ControlCommand::End)),
        flags: counted_flags(),
        ..empty_container()
    }
}

fn compile_gather(gather: &Gather, container: &mut Container)
    ensures
        final(container)@ == with_object(old(container)@, InkObjectView::Container(gather_container(gather@))),
{
    let mut gc = Container::new();
    gc.flags = counted();
    if let Some(content) = &gather.content {
        compile_content_items(&content.items, &mut gc);
    }
    gc.push(InkObject::ControlCommand(ControlCommand::End));
    assert(gc@ == gather_container(gather@));
    container.push(InkObject::Container(gc));
}

/// The container of a sequence element: counted, with its content and `end`.
pub open spec fn element_container(items: Seq<ContentItemView>) -> ContainerView {
    ContainerView {
        content: items_objects(items).push(InkObjectView::ControlCommand(ControlCommand::End)),
        flags: counted_flags(),
        ..empty_container()
    }
}

pub open spec fn elements_objects(es: Seq<crate::ink_parser::ir::SequenceElementView>) -> Seq<
    InkObjectView,
>
    decreases es.len(),
{
    if es.len() == 0 {
        Seq::empty()
    } else {
        elements_objects(es.drop_last()).push(
            InkObjectView::Container(element_container(es.last().content.items)),
        )
    }
}

/// A sequence: the element count evaluated with `seq`, then one container
/// per element.
pub open spec fn sequence_objects(s: SequenceView) -> Seq<InkObjectView> {
    seq![
        InkObjectView::ControlCommand(ControlCommand::EvalStart),
        InkObjectView::Int(s.elements.len() as i64),
        InkObjectView::ControlCommand(ControlCommand::Sequence),
        InkObjectView::ControlCommand(ControlCommand::EvalEnd),
    ] + elements_objects(s.elements)
}

fn compile_sequence(seq: &Sequence, container: &mut Container)
    ensures
        final(container)@ == with_objects(old(container)@, sequence_objects(seq@)),
{
    container.push(InkObject::ControlCommand(ControlCommand::EvalStart));
    container.push(InkObject::Int(seq.elements.len() as i64));
    container.push(InkObject::ControlCommand(ControlCommand::Sequence));
    container.push(InkObject::ControlCommand(ControlCommand::EvalEnd));
    let ghost head = container@;
    let mut i: usize = 0;
    while i < seq.elements.len()
        invariant
            i <= seq.elements@.len(),
            container@ == with_objects(head, elements_objects(seq_view(seq.elements@).take(i as int))),
        decreases seq.elements.len() - i,
    {
        let element = &seq.elements[i];
        let mut elem_container = Container::new();
        elem_container.flags = counted();
        compile_content_items(&element.content.items, &mut elem_container);
        elem_container.push(InkObject::ControlCommand(ControlCommand::End));
        assert(elem_container@ == element_container(element@.content.items));
        container.push(InkObject::Container(elem_container));
        proof {
            let v = seq_view(seq.elements@);
            assert(v.take(i + 1).drop_last() =~= v.take(i as int));
            assert(v.take(i + 1).last() == element@);
            assert(container@.content =~= head.content + elements_objects(v.take(i + 1)));
        }
        i = i + 1;
    }
    proof {
        assert(seq_view(seq.elements@).take(i as int) =~= seq_view(seq.elements@));
        assert(container@.content =~= old(container)@.content + sequence_objects(seq@));
    }
}

// ---------------------------------------------------------------------------
// Choices
// ---------------------------------------------------------------------------

/// The choice counter after one more choice; it wraps around at its limit.
pub open spec fn next_counter(k: usize) -> usize {
    if k == usize::MAX {
        0
    } else {
        (k + 1) as usize
    }
}

fn advance_counter(counter: &mut usize) -> (r: usize)
    ensures
        *final(counter) == next_counter(*old(counter)),
        r == *final(counter),
{
    if *counter == usize::MAX {
        *counter = 0;
    } else {
        *counter = *counter + 1;
    }
    *counter
}

/// The name of a choice's container: its label with spaces made
/// underscores, or `c_` and the choice's number.
pub open spec fn choice_name(c: ChoiceView, n: usize) -> Seq<char> {
    match c.identifier {
        Some(id) => underscored(id.name),
        None => "c_"@ + decimal(n as nat),
    }
}

/// The name of a choice's start-content container.
pub open spec fn start_name(n: usize) -> Seq<char> {
    "s_"@ + decimal(n as nat)
}

/// A choice's flags: once-only, has a condition, has start content (or
/// inner content), has choice-only content (or brackets), is an invisible
/// default.
pub open spec fn choice_flags(c: ChoiceView) -> u32 {
    ((if c.once_only { 16int } else { 0int }) + (if c.condition is Some { 1int } else { 0int }) + (
    if c.start_content is Some || c.inner_content.items.len() > 0 {
        2int
    } else {
        0int
    }) + (if c.option_only_content is Some || c.has_brackets { 4int } else { 0int }) + (
    if c.is_invisible_default {
        8int
    } else {
        0int
    })) as u32
}

/// The container a choice compiles to: its start content is evaluated as a
/// string through a function divert and output, then the choice point;
/// the start-content and choice-only containers are named in it.
pub open spec fn choice_outer(c: ChoiceView, n: usize) -> ContainerView {
    let sname = start_name(n);
    let cname = choice_name(c, n);
    let start_path = ".^."@ + sname;
    let choice_path = ".^."@ + cname;
    let start_items = match c.start_content {
        Some(sc) => sc.items,
        None => c.inner_content.items,
    };
    let start_c = ContainerView {
        content: items_objects(start_items),
        flags: counted_flags(),
        name: Some(sname),
        ..empty_container()
    };
    let choice_c = ContainerView {
        content: match c.option_only_content {
            Some(oc) => items_objects(oc.items),
            None => Seq::empty(),
        },
        flags: counted_flags(),
        name: Some(cname),
        ..empty_container()
    };
    let cp = ChoicePointView {
        target_path: choice_path,
        flags: choice_flags(c),
        start_content_path: Some(start_path),
        choice_only_content_path: Some(choice_path),
        original_text_hash: None,
    };
    ContainerView {
        content: seq![
            InkObjectView::ControlCommand(ControlCommand::EvalStart),
            InkObjectView::ControlCommand(ControlCommand::StringEvalStart),
            InkObjectView::Divert(
                DivertView { target: Some(start_path), is_function_call: true, ..plain_divert() },
            ),
            InkObjectView::ControlCommand(ControlCommand::StringEvalEnd),
            InkObjectView::ControlCommand(ControlCommand::EvalEnd),
            InkObjectView::ControlCommand(ControlCommand::Out),
            InkObjectView::ChoicePoint(cp),
        ],
        named: named_insert(named_insert(Seq::empty(), sname, start_c), cname, choice_c),
        ..empty_container()
    }
}

/// Compile a choice into a ChoicePoint with associated containers; the
/// counter numbers the choices.
fn compile_choice(choice: &Choice, container: &mut Container, counter: &mut usize)
    ensures
        *final(counter) == next_counter(*old(counter)),
        final(container)@ == with_object(
            old(container)@,
            InkObjectView::Container(choice_outer(choice@, *final(counter))),
        ),
{
    let n = advance_counter(counter);
    let choice_name = match &choice.identifier {
        Some(id) => normalize_name(id.name.as_str()),
        None => {
            let mut s = String::from_str("c_");
            push_decimal(&mut s, n);
            s
        },
    };
    let mut start_name = String::from_str("s_");
    push_decimal(&mut start_name, n);

    // Determine flags
    let mut flags_val: u32 = if choice.once_only { 0x10 } else { 0 };
    if choice.condition.is_some() {
        flags_val = flags_val + 0x1;
    }
    if choice.start_content.is_some() || choice.inner_content.items.len() > 0 {
        flags_val = flags_val + 0x2;
    }
    if choice.option_only_content.is_some() || choice.has_brackets {
        flags_val = flags_val + 0x4;
    }
    if choice.is_invisible_default {
        flags_val = flags_val + 0x8;
    }
    let flags = ChoiceFlags::from_bits(flags_val);

    // Start content container
    let start_path = crate::text::concat_strs(".^.", start_name.as_str());
    let mut start_container = Container::new();
    start_container.set_name(start_name.as_str());
    start_container.flags = counted();
    if let Some(sc) = &choice.start_content {
        compile_content_items(&sc.items, &mut start_container);
    } else {
        compile_content_items(&choice.inner_content.items, &mut start_container);
    }

    // Choice-only content container
    let choice_path = crate::text::concat_strs(".^.", choice_name.as_str());
    let mut choice_container = Container::new();
    choice_container.set_name(choice_name.as_str());
    choice_container.flags = counted();
    if let Some(oc) = &choice.option_only_content {
        compile_content_items(&oc.items, &mut choice_container);
    }
    // Outer container with choice evaluation

    let mut outer = Container::new();
    outer.push(InkObject::ControlCommand(ControlCommand::EvalStart));
    outer.push(InkObject::ControlCommand(ControlCommand::StringEvalStart));
    outer.push(InkObject::Divert(Divert::function(start_path.as_str())));
    outer.push(InkObject::ControlCommand(ControlCommand::StringEvalEnd));
    outer.push(InkObject::ControlCommand(ControlCommand::EvalEnd));
    outer.push(InkObject::ControlCommand(ControlCommand::Out));
    let cp = ChoicePoint {
        target_path: choice_path,
        flags,
        start_content_path: Some(start_path),
        choice_only_content_path: Some(crate::text::concat_strs(".^.", choice_name.as_str())),
        original_text_hash: None,
    };
    outer.push(InkObject::ChoicePoint(cp));
    outer.add_named(start_name.as_str(), start_container);
    outer.add_named(choice_name.as_str(), choice_container);
    proof {
        reveal_strlit("s_");
        reveal_strlit("c_");
        assert(outer@.content =~= choice_outer(choice@, n).content);
        assert(outer@ == choice_outer(choice@, n));
    }
    container.push(InkObject::Container(outer));
}

// ---------------------------------------------------------------------------
// Conditionals
// ---------------------------------------------------------------------------

/// One node of a conditional branch: text, a divert, a gather or a choice;
/// other nodes are dropped.
pub open spec fn branch_node(n: StoryNodeView, c: ContainerView, k: usize) -> (ContainerView, usize) {
    match n {
        StoryNodeView::Text(t) => (with_object(c, InkObjectView::String(t.text)), k),
        StoryNodeView::Divert(d) => (with_object(c, divert_object(d)), k),
        StoryNodeView::Gather(g) => (with_object(c, InkObjectView::Container(gather_container(g))), k),
        StoryNodeView::Choice(ch) => (
            with_object(c, InkObjectView::Container(choice_outer(ch, next_counter(k)))),
            next_counter(k),
        ),
        _ => (c, k),
    }
}

pub open spec fn branch_nodes(nodes: Seq<StoryNodeView>, c: ContainerView, k: usize) -> (
    ContainerView,
    usize,
)
    decreases nodes.len(),
{
    if nodes.len() == 0 {
        (c, k)
    } else {
        let (c1, k1) = branch_nodes(nodes.drop_last(), c, k);
        branch_node(nodes.last(), c1, k1)
    }
}

/// The branches in order: each after the first begins with `pop`, then its
/// condition evaluated, then its nodes.
pub open spec fn branches_objects(bs: Seq<ConditionalBranchView>, c: ContainerView, k: usize) -> (
    ContainerView,
    usize,
)
    decreases bs.len(),
{
    if bs.len() == 0 {
        (c, k)
    } else {
        let (c1, k1) = branches_objects(bs.drop_last(), c, k);
        let b = bs.last();
        let c2 = if bs.len() > 1 {
            with_object(c1, InkObjectView::ControlCommand(ControlCommand::Pop))
        } else {
            c1
        };
        let c3 = match b.condition {
            Some(e) => with_objects(c2, expr_stack(e)),
            None => c2,
        };
        branch_nodes(b.content, c3, k1)
    }
}

fn compile_branch_nodes(nodes: &Vec<StoryNode>, container: &mut Container, counter: &mut usize)
    ensures
        (final(container)@, *final(counter)) == branch_nodes(nodes_view(nodes@), old(container)@, *old(counter)),
{
    let mut j: usize = 0;
    while j < nodes.len()
        invariant
            j <= nodes@.len(),
            (container@, *counter) == branch_nodes(
                nodes_view(nodes@.take(j as int)),
                old(container)@,
                *old(counter),
            ),
        decreases nodes.len() - j,
    {
        let ghost before = (container@, *counter);
        match &nodes[j] {
            StoryNode::Text(t) => container.push(InkObject::String(String::from_str(t.text.as_str()))),
            StoryNode::Divert(d) => container.push(compile_divert(d)),
            StoryNode::Gather(g) => compile_gather(g, container),
            StoryNode::Choice(c) => compile_choice(c, container, counter),
            _ => {},
        }
        proof {
            assert(nodes@.take(j + 1) =~= nodes@.take(j as int).push(nodes@[j as int]));
            crate::ink_parser::ir::lemma_nodes_view_push(nodes@.take(j as int), nodes@[j as int]);
            let v = nodes_view(nodes@.take(j + 1));
            assert(v.drop_last() =~= nodes_view(nodes@.take(j as int)));
        }
        j = j + 1;
    }
    assert(nodes@.take(j as int) =~= nodes@);
}

fn compile_conditional(cond: &Conditional, container: &mut Container, counter: &mut usize)
    ensures
        (final(container)@, *final(counter)) == branches_objects(
            branches_view(cond.branches@),
            old(container)@,
            *old(counter),
        ),
{
    let mut i: usize = 0;
    while i < cond.branches.len()
        invariant
            i <= cond.branches@.len(),
            (container@, *counter) == branches_objects(
                branches_view(cond.branches@.take(i as int)),
                old(container)@,
                *old(counter),
            ),
        decreases cond.branches.len() - i,
    {
        let branch = &cond.branches[i];
        if i > 0 {
            container.push(InkObject::ControlCommand(ControlCommand::Pop));
        }
        if let Some(expr) = &branch.condition {
            let objs = compile_expression_to_stack(expr);
            push_objects(container, objs);
        }
        compile_branch_nodes(&branch.content, container, counter);
        proof {
            let t = cond.branches@.take(i + 1);
            assert(t =~= cond.branches@.take(i as int).push(cond.branches@[i as int]));
            crate::ink_parser::ir::lemma_branches_view_push(
                cond.branches@.take(i as int),
                cond.branches@[i as int],
            );
            crate::ink_parser::ir::lemma_branches_view_len(t);
            assert(branches_view(t).drop_last() =~= branches_view(cond.branches@.take(i as int)));
        }
        i = i + 1;
    }
    assert(cond.branches@.take(i as int) =~= cond.branches@);
}

// ---------------------------------------------------------------------------
// Knots and stitches
// ---------------------------------------------------------------------------

/// The objects of a logic block inside a knot: its text and diverts.
pub open spec fn logic_objects(nodes: Seq<StoryNodeView>) -> Seq<InkObjectView>
    decreases nodes.len(),
{
    if nodes.len() == 0 {
        Seq::empty()
    } else {
        logic_objects(nodes.drop_last()) + match nodes.last() {
            StoryNodeView::Text(t) => seq![InkObjectView::String(t.text)],
            StoryNodeView::Divert(d) => seq![divert_object(d)],
            _ => Seq::empty(),
        }
    }
}

/// One node of a knot's content. A stitch becomes a counted named
/// sub-container ending in `end`; choices, gathers, text, diverts,
/// conditionals, sequences, tags, assignments and logic text compile in
/// place; declarations, includes, directives and author warnings are
/// dropped.
pub open spec fn knot_node(n: StoryNodeView, c: ContainerView, k: usize) -> (ContainerView, usize)
    decreases n,
{
    match n {
        StoryNodeView::Knot(st) => {
            let name = underscored(st.identifier.name);
            let sub0 = ContainerView { name: Some(name), flags: counted_flags(), ..empty_container() };
            let (sub1, k1) = knot_nodes(st.content, sub0, k);
            let sub2 = with_object(sub1, InkObjectView::ControlCommand(ControlCommand::End));
            (ContainerView { named: named_insert(c.named, name, sub2), ..c }, k1)
        },
        StoryNodeView::Choice(ch) => (
            with_object(c, InkObjectView::Container(choice_outer(ch, next_counter(k)))),
            next_counter(k),
        ),
        StoryNodeView::Gather(g) => (with_object(c, InkObjectView::Container(gather_container(g))), k),
        StoryNodeView::Text(t) => (with_object(c, InkObjectView::String(t.text)), k),
        StoryNodeView::Divert(d) => (with_object(c, divert_object(d)), k),
        StoryNodeView::Conditional(cond) => branches_objects(cond.branches, c, k),
        StoryNodeView::Sequence(sq) => (with_objects(c, sequence_objects(sq)), k),
        StoryNodeView::Tag(_) => (with_object(c, InkObjectView::Tag(""@)), k),
        StoryNodeView::VariableAssignment(va) => (with_object(c, assignment_object(va)), k),
        StoryNodeView::Logic(l) => (with_objects(c, logic_objects(l.content)), k),
        _ => (c, k),
    }
}

pub open spec fn knot_nodes(nodes: Seq<StoryNodeView>, c: ContainerView, k: usize) -> (
    ContainerView,
    usize,
)
    decreases nodes,
{
    if nodes.len() == 0 {
        (c, k)
    } else {
        let (c1, k1) = knot_nodes(nodes.drop_last(), c, k);
        knot_node(nodes.last(), c1, k1)
    }
}

fn compile_logic_in_knot(nodes: &Vec<StoryNode>, container: &mut Container)
    ensures
        final(container)@ == with_objects(old(container)@, logic_objects(nodes_view(nodes@))),
{
    let mut j: usize = 0;
    while j < nodes.len()
        invariant
            j <= nodes@.len(),
            container@ == with_objects(old(container)@, logic_objects(nodes_view(nodes@.take(j as int)))),
        decreases nodes.len() - j,
    {
        match &nodes[j] {
            StoryNode::Text(t) => container.push(InkObject::String(String::from_str(t.text.as_str()))),
            StoryNode::Divert(d) => container.push(compile_divert(d)),
            _ => {},
        }
        proof {
            assert(nodes@.take(j + 1) =~= nodes@.take(j as int).push(nodes@[j as int]));
            crate::ink_parser::ir::lemma_nodes_view_push(nodes@.take(j as int), nodes@[j as int]);
            let v = nodes_view(nodes@.take(j + 1));
            assert(v.drop_last() =~= nodes_view(nodes@.take(j as int)));
            assert(container@.content =~= old(container)@.content + logic_objects(v));
        }
        j = j + 1;
    }
    assert(nodes@.take(j as int) =~= nodes@);
}

/// Process knot content (can include nested Knots for stitches).
fn compile_knot_content(nodes: &Vec<StoryNode>, container: &mut Container, counter: &mut usize)
    ensures
        (final(container)@, *final(counter)) == knot_nodes(nodes_view(nodes@), old(container)@, *old(counter)),
    decreases nodes,
{
    let mut j: usize = 0;
    while j < nodes.len()
        invariant
            j <= nodes@.len(),
            (container@, *counter) == knot_nodes(
                nodes_view(nodes@.take(j as int)),
                old(container)@,
                *old(counter),
            ),
        decreases nodes.len() - j,
    {
        compile_knot_node(&nodes[j], container, counter);
        proof {
            assert(nodes@.take(j + 1) =~= nodes@.take(j as int).push(nodes@[j as int]));
            crate::ink_parser::ir::lemma_nodes_view_push(nodes@.take(j as int), nodes@[j as int]);
            let v = nodes_view(nodes@.take(j + 1));
            assert(v.drop_last() =~= nodes_view(nodes@.take(j as int)));
        }
        j = j + 1;
    }
    assert(nodes@.take(j as int) =~= nodes@);
}

fn compile_knot_node(node: &StoryNode, container: &mut Container, counter: &mut usize)
    ensures
        (final(container)@, *final(counter)) == knot_node(
            crate::ink_parser::ir::node_view(*node),
            old(container)@,
            *old(counter),
        ),
    decreases node,
{
    match node {
        StoryNode::Knot(stitch) => {
            let name = normalize_name(stitch.identifier.name.as_str());
            let mut sub = Container::new();
            sub.set_name(name.as_str());
            sub.flags = counted();
            compile_knot_content(&stitch.content, &mut sub, counter);
            sub.push(InkObject::ControlCommand(ControlCommand::End));
            container.add_named(name.as_str(), sub);
        },
        StoryNode::Choice(c) => {
            compile_choice(c, container, counter);
        },
        StoryNode::Gather(g) => {
            compile_gather(g, container);
        },
        StoryNode::Text(t) => {
            container.push(InkObject::String(String::from_str(t.text.as_str())));
        },
        StoryNode::Divert(d) => {
            container.push(compile_divert(d));
        },
        StoryNode::Conditional(cond) => {
            compile_conditional(cond, container, counter);
        },
        StoryNode::Sequence(seq) => {
            compile_sequence(seq, container);
        },
        StoryNode::Tag(_tag) => {
            container.push(InkObject::Tag(Tag::new("")));
        },
        StoryNode::VariableAssignment(va) => {
            container.push(compile_var_assignment(va));
        },
        StoryNode::Logic(logic) => {
            compile_logic_in_knot(&logic.content, container);
        },
        _ => {},
    }
}

// ---------------------------------------------------------------------------
// The story
// ---------------------------------------------------------------------------

/// The runtime list of a LIST declaration; an item without a value has 0.
pub open spec fn list_definition(l: ListDeclarationView) -> ListDefinitionView {
    ListDefinitionView {
        name: l.identifier.name,
        items: l.items.map_values(
            |i: crate::ink_parser::ir::ListItemDeclarationView|
                (
                    i.name.name,
                    match i.value {
                        Some(v) => v,
                        None => 0i32,
                    },
                ),
        ),
    }
}

fn list_definition_of(list: &ListDeclaration) -> (r: ListDefinition)
    ensures
        r@ == list_definition(list@),
{
    let mut items: Vec<ListItem> = Vec::new();
    let mut i: usize = 0;
    while i < list.items.len()
        invariant
            i <= list.items@.len(),
            items@.map_values(|it: ListItem| (it.name@, it.value)) == list_definition(list@).items.take(
                i as int,
            ),
        decreases list.items.len() - i,
    {
        let item = &list.items[i];
        let value = match item.value {
            Some(v) => v,
            None => 0,
        };
        let ghost before = items@;
        items.push(ListItem { name: String::from_str(item.name.name.as_str()), value });
        proof {
            assert(items@.map_values(|it: ListItem| (it.name@, it.value)) =~= before.map_values(
                |it: ListItem| (it.name@, it.value),
            ).push((item.name.name@, value)));
            assert(list_definition(list@).items.take(i + 1) =~= list_definition(list@).items.take(
                i as int,
            ).push((item.name.name@, value)));
        }
        i = i + 1;
    }
    assert(list_definition(list@).items.take(i as int) =~= list_definition(list@).items);
    ListDefinition { name: String::from_str(list.identifier.name.as_str()), items }
}

/// The story with one more object at the end of its root container.
pub open spec fn with_root_object(st: StoryView, o: InkObjectView) -> StoryView {
    StoryView { root: with_object(st.root, o), ..st }
}

/// One top-level node: a knot becomes a named container of the root ending
/// in `~ret` (functions) or `->->`; text, diverts, conditionals,
/// assignments, tags and sequences go into the root; a list declaration
/// adds a list; a logic block's nodes compile in turn; anything else is
/// dropped.
pub open spec fn top_node(n: StoryNodeView, st: StoryView, k: usize) -> (StoryView, usize)
    decreases n,
{
    match n {
        StoryNodeView::Knot(kn) => {
            let name = underscored(kn.identifier.name);
            let kc0 = ContainerView { name: Some(name), ..empty_container() };
            let (kc1, k1) = knot_nodes(kn.content, kc0, k);
            let kc2 = with_object(
                kc1,
                InkObjectView::ControlCommand(
                    if kn.is_function {
                        ControlCommand::FuncRet
                    } else {
                        ControlCommand::TunnelRet
                    },
                ),
            );
            (story_add_knot(st, name, kc2), k1)
        },
        StoryNodeView::Text(t) => (with_root_object(st, InkObjectView::String(t.text)), k),
        StoryNodeView::Divert(d) => (with_root_object(st, divert_object(d)), k),
        StoryNodeView::Conditional(cond) => {
            let (r, k1) = branches_objects(cond.branches, st.root, k);
            (StoryView { root: r, ..st }, k1)
        },
        StoryNodeView::VariableAssignment(va) => (with_root_object(st, assignment_object(va)), k),
        StoryNodeView::ListDeclaration(l) => (
            StoryView { lists: st.lists.push(list_definition(l)), ..st },
            k,
        ),
        StoryNodeView::Tag(_) => (with_root_object(st, InkObjectView::Tag(""@)), k),
        StoryNodeView::Logic(l) => top_nodes(l.content, st, k),
        StoryNodeView::Sequence(sq) => (
            StoryView { root: with_objects(st.root, sequence_objects(sq)), ..st },
            k,
        ),
        _ => (st, k),
    }
}

pub open spec fn top_nodes(nodes: Seq<StoryNodeView>, st: StoryView, k: usize) -> (StoryView, usize)
    decreases nodes,
{
    if nodes.len() == 0 {
        (st, k)
    } else {
        let (s1, k1) = top_nodes(nodes.drop_last(), st, k);
        top_node(nodes.last(), s1, k1)
    }
}

/// Compile a knot definition into a named container.
fn compile_knot(knot: &Knot, story: &mut Story, counter: &mut usize)
    ensures
        (final(story)@, *final(counter)) == top_node(
            StoryNodeView::Knot(
                KnotView {
                    identifier: knot.identifier@,
                    content: nodes_view(knot.content@),
                    arguments: seq_view(knot.arguments@),
                    is_function: knot.is_function,
                    location: knot.location@,
                },
            ),
            old(story)@,
            *old(counter),
        ),
{
    let knot_name = normalize_name(knot.identifier.name.as_str());
    let mut knot_container = Container::new();
    knot_container.set_name(knot_name.as_str());

    // Process knot content
    compile_knot_content(&knot.content, &mut knot_container, counter);

    // End with tunnel return or function return
    if knot.is_function {
        knot_container.push(InkObject::ControlCommand(ControlCommand::FuncRet));
    } else {
        knot_container.push(InkObject::ControlCommand(ControlCommand::TunnelRet));
    }
    story.add_knot(knot_name.as_str(), knot_container);
}

fn compile_story_nodes(nodes: &Vec<StoryNode>, story: &mut Story, counter: &mut usize)
    ensures
        (final(story)@, *final(counter)) == top_nodes(nodes_view(nodes@), old(story)@, *old(counter)),
    decreases nodes,
{
    let mut j: usize = 0;
    while j < nodes.len()
        invariant
            j <= nodes@.len(),
            (story@, *counter) == top_nodes(nodes_view(nodes@.take(j as int)), old(story)@, *old(counter)),
        decreases nodes.len() - j,
    {
        compile_story_node(&nodes[j], story, counter);
        proof {
            assert(nodes@.take(j + 1) =~= nodes@.take(j as int).push(nodes@[j as int]));
            crate::ink_parser::ir::lemma_nodes_view_push(nodes@.take(j as int), nodes@[j as int]);
            let v = nodes_view(nodes@.take(j + 1));
            assert(v.drop_last() =~= nodes_view(nodes@.take(j as int)));
        }
        j = j + 1;
    }
    assert(nodes@.take(j as int) =~= nodes@);
}

fn compile_story_node(node: &StoryNode, story: &mut Story, counter: &mut usize)
    ensures
        (final(story)@, *final(counter)) == top_node(
            crate::ink_parser::ir::node_view(*node),
            old(story)@,
            *old(counter),
        ),
    decreases node,
{
    match node {
        StoryNode::Knot(knot) => compile_knot(knot, story, counter),
        StoryNode::Text(t) => {
            story.root.push(InkObject::String(String::from_str(t.text.as_str())));
        },
        StoryNode::Divert(d) => {
            story.root.push(compile_divert(d));
        },
        StoryNode::Conditional(cond) => {
            compile_conditional(cond, &mut story.root, counter);
        },
        StoryNode::VariableAssignment(va) => {
            story.root.push(compile_var_assignment(va));
        },
        StoryNode::ListDeclaration(list) => {
            let def = list_definition_of(list);
            story.add_list(def);
        },
        StoryNode::Tag(_tag) => {
            story.root.push(InkObject::Tag(Tag::new("")));
        },
        StoryNode::Logic(logic) => {
            compile_story_nodes(&logic.content, story, counter);
        },
        StoryNode::Sequence(seq) => {
            compile_sequence(seq, &mut story.root);
        },
        _ => {},
    }
}

/// The runtime story of a parsed story: its global variables as `VAR=`
/// declarations, its top-level nodes compiled in order with choices
/// numbered from 1, and its list declarations added after the lists of the
/// content.
pub open spec fn compile_spec(sv: ParsedStoryView) -> StoryView {
    compile_from_spec(sv, 0).0
}

/// The runtime story of a parsed story with its choices numbered on from
/// `k` (the count of choices compiled before), and the count after it.
pub open spec fn compile_from_spec(sv: ParsedStoryView, k: usize) -> (StoryView, usize) {
    let st0 = StoryView {
        variables: sv.global_variables.map_values(
            |v: crate::ink_parser::ir::VariableDeclarationView|
                VariableAssignmentView { varname: v.identifier.name, is_global: true, context_index: 0 },
        ),
        ..empty_story()
    };
    let (st1, k1) = top_nodes(sv.content, st0, k);
    (
        StoryView {
            lists: st1.lists + sv.list_declarations.map_values(|l: ListDeclarationView| list_definition(l)),
            ..st1
        },
        k1,
    )
}

/// Compile a ParsedStory IR into a runtime Story, numbering its choices
/// from 1.
pub fn compile(story: &ParsedStory) -> (r: Story)
    ensures
        r@ == compile_spec(story@),
{
    let mut counter: usize = 0;
    compile_from(story, &mut counter)
}

/// Compile a ParsedStory IR into a runtime Story, numbering its choices on
/// from `counter` (the choices already compiled), which it advances; a
/// caller that keeps one counter across compilations numbers choices as
/// one process-wide count does.
pub fn compile_from(story: &ParsedStory, counter: &mut usize) -> (r: Story)
    ensures
        (r@, *final(counter)) == compile_from_spec(story@, *old(counter)),
{
    let mut result = Story::new();

    // Add global variables
    let mut i: usize = 0;
    assert(story@.global_variables.take(0).map_values(
        |v: crate::ink_parser::ir::VariableDeclarationView|
            VariableAssignmentView { varname: v.identifier.name, is_global: true, context_index: 0 },
    ) =~= Seq::<VariableAssignmentView>::empty());
    while i < story.global_variables.len()
        invariant
            i <= story.global_variables@.len(),
            result@ == (StoryView {
                variables: story@.global_variables.take(i as int).map_values(
                    |v: crate::ink_parser::ir::VariableDeclarationView|
                        VariableAssignmentView {
                            varname: v.identifier.name,
                            is_global: true,
                            context_index: 0,
                        },
                ),
                ..empty_story()
            }),
        decreases story.global_variables.len() - i,
    {
        result.add_variable(story.global_variables[i].identifier.name.as_str());
        proof {
            let f = |v: crate::ink_parser::ir::VariableDeclarationView|
                VariableAssignmentView { varname: v.identifier.name, is_global: true, context_index: 0 };
            assert(story@.global_variables.take(i + 1).map_values(f) =~= story@.global_variables.take(
                i as int,
            ).map_values(f).push(f(story@.global_variables[i as int])));
        }
        i = i + 1;
    }
    assert(story@.global_variables.take(i as int) =~= story@.global_variables);

    // Process top-level content
    compile_story_nodes(&story.content, &mut result, counter);

    // Add list declarations
    let ghost mid = result@;
    let mut j: usize = 0;
    while j < story.list_declarations.len()
        invariant
            j <= story.list_declarations@.len(),
            result@ == (StoryView {
                lists: mid.lists + story@.list_declarations.take(j as int).map_values(
                    |l: ListDeclarationView| list_definition(l),
                ),
                ..mid
            }),
        decreases story.list_declarations.len() - j,
    {
        let def = list_definition_of(&story.list_declarations[j]);
        result.add_list(def);
        proof {
            let f = |l: ListDeclarationView| list_definition(l);
            assert(mid.lists + story@.list_declarations.take(j + 1).map_values(f) =~= (mid.lists
                + story@.list_declarations.take(j as int).map_values(f)).push(
                f(story@.list_declarations[j as int]),
            ));
        }
        j = j + 1;
    }
    assert(story@.list_declarations.take(j as int) =~= story@.list_declarations);
    result
}

/// Compiling top-level nodes never changes the story's ink version.
pub proof fn lemma_top_nodes_version(nodes: Seq<StoryNodeView>, st: StoryView, k: usize)
    ensures
        top_nodes(nodes, st, k).0.ink_version == st.ink_version,
    decreases nodes,
{
    if nodes.len() > 0 {
        lemma_top_nodes_version(nodes.drop_last(), st, k);
        let (s1, k1) = top_nodes(nodes.drop_last(), st, k);
        lemma_top_node_version(nodes.last(), s1, k1);
    }
}

pub proof fn lemma_top_node_version(n: StoryNodeView, st: StoryView, k: usize)
    ensures
        top_node(n, st, k).0.ink_version == st.ink_version,
    decreases n,
{
    match n {
        StoryNodeView::Logic(l) => lemma_top_nodes_version(l.content, st, k),
        _ => {},
    }
}

/// Every compiled story is of ink version 21.
pub proof fn law_compiled_ink_version(sv: ParsedStoryView)
    ensures
        compile_spec(sv).ink_version == 21,
{
    let st0 = StoryView {
        variables: sv.global_variables.map_values(
            |v: crate::ink_parser::ir::VariableDeclarationView|
                VariableAssignmentView { varname: v.identifier.name, is_global: true, context_index: 0 },
        ),
        ..empty_story()
    };
    lemma_top_nodes_version(sv.content, st0, 0);
}

/// A sequence compiles to the element count evaluated with `seq`, then one
/// container per element.
pub proof fn law_sequence_containers(s: SequenceView)
    ensures
        sequence_objects(s).len() == 4 + s.elements.len(),
        forall|i: int|
            0 <= i < s.elements.len() ==> #[trigger] sequence_objects(s)[4 + i] == InkObjectView::Container(
                element_container(s.elements[i].content.items),
            ),
{
    lemma_elements_objects(s.elements);
}

pub proof fn lemma_elements_objects(es: Seq<crate::ink_parser::ir::SequenceElementView>)
    ensures
        elements_objects(es).len() == es.len(),
        forall|i: int|
            0 <= i < es.len() ==> #[trigger] elements_objects(es)[i] == InkObjectView::Container(
                element_container(es[i].content.items),
            ),
    decreases es.len(),
{
    if es.len() > 0 {
        lemma_elements_objects(es.drop_last());
        assert forall|i: int| 0 <= i < es.len() - 1 implies es.drop_last()[i] == es[i] by {}
    }
}

// ---------------------------------------------------------------------------
// Directives leave no trace in the compiled story
// ---------------------------------------------------------------------------

/// A node with the directives taken out of the nodes it holds: the content
/// of a knot or stitch, of a logic block, and of each conditional branch.
pub open spec fn strip_node(n: StoryNodeView) -> StoryNodeView
    decreases n,
{
    match n {
        StoryNodeView::Knot(k) => StoryNodeView::Knot(KnotView { content: strip_nodes(k.content), ..k }),
        StoryNodeView::Logic(l) => StoryNodeView::Logic(
            LogicBlockView { content: strip_nodes(l.content), ..l },
        ),
        StoryNodeView::Conditional(c) => StoryNodeView::Conditional(
            ConditionalView { branches: strip_branches(c.branches), ..c },
        ),
        _ => n,
    }
}

/// The nodes without their directives, at every depth.
pub open spec fn strip_nodes(nodes: Seq<StoryNodeView>) -> Seq<StoryNodeView>
    decreases nodes,
{
    if nodes.len() == 0 {
        nodes
    } else {
        let rest = strip_nodes(nodes.drop_last());
        match nodes.last() {
            StoryNodeView::Directive(_) => rest,
            other => rest.push(strip_node(other)),
        }
    }
}

/// Conditional branches without the directives in their content.
pub open spec fn strip_branches(bs: Seq<ConditionalBranchView>) -> Seq<ConditionalBranchView>
    decreases bs,
{
    if bs.len() == 0 {
        bs
    } else {
        let b = bs.last();
        strip_branches(bs.drop_last()).push(ConditionalBranchView { content: strip_nodes(b.content), ..b })
    }
}

proof fn lemma_strip_branch_nodes(nodes: Seq<StoryNodeView>, c: ContainerView, k: usize)
    ensures
        branch_nodes(strip_nodes(nodes), c, k) == branch_nodes(nodes, c, k),
    decreases nodes.len(),
{
    if nodes.len() > 0 {
        lemma_strip_branch_nodes(nodes.drop_last(), c, k);
        let rest = strip_nodes(nodes.drop_last());
        match nodes.last() {
            StoryNodeView::Directive(_) => {},
            other => {
                assert(rest.push(strip_node(other)).drop_last() =~= rest);
            },
        }
    }
}

proof fn lemma_strip_branches(bs: Seq<ConditionalBranchView>, c: ContainerView, k: usize)
    ensures
        strip_branches(bs).len() == bs.len(),
        branches_objects(strip_branches(bs), c, k) == branches_objects(bs, c, k),
    decreases bs.len(),
{
    if bs.len() > 0 {
        lemma_strip_branches(bs.drop_last(), c, k);
        let b = bs.last();
        let sb = strip_branches(bs);
        assert(sb.drop_last() =~= strip_branches(bs.drop_last()));
        let (c1, k1) = branches_objects(bs.drop_last(), c, k);
        let c2 = if bs.len() > 1 {
            with_object(c1, InkObjectView::ControlCommand(ControlCommand::Pop))
        } else {
            c1
        };
        let c3 = match b.condition {
            Some(e) => with_objects(c2, expr_stack(e)),
            None => c2,
        };
        lemma_strip_branch_nodes(b.content, c3, k1);
    }
}

proof fn lemma_strip_logic(nodes: Seq<StoryNodeView>)
    ensures
        logic_objects(strip_nodes(nodes)) == logic_objects(nodes),
    decreases nodes.len(),
{
    if nodes.len() > 0 {
        lemma_strip_logic(nodes.drop_last());
        let rest = strip_nodes(nodes.drop_last());
        match nodes.last() {
            StoryNodeView::Directive(_) => {},
            other => {
                assert(rest.push(strip_node(other)).drop_last() =~= rest);
            },
        }
    }
}

proof fn lemma_strip_knot_node(n: StoryNodeView, c: ContainerView, k: usize)
    ensures
        knot_node(strip_node(n), c, k) == knot_node(n, c, k),
    decreases n, 0nat,
{
    match n {
        StoryNodeView::Knot(st) => {
            let name = underscored(st.identifier.name);
            let sub0 = ContainerView { name: Some(name), flags: counted_flags(), ..empty_container() };
            lemma_strip_knot_nodes(st.content, sub0, k);
        },
        StoryNodeView::Logic(l) => lemma_strip_logic(l.content),
        StoryNodeView::Conditional(cond) => lemma_strip_branches(cond.branches, c, k),
        _ => {},
    }
}

proof fn lemma_strip_knot_nodes(nodes: Seq<StoryNodeView>, c: ContainerView, k: usize)
    ensures
        knot_nodes(strip_nodes(nodes), c, k) == knot_nodes(nodes, c, k),
    decreases nodes, 1nat,
{
    if nodes.len() > 0 {
        lemma_strip_knot_nodes(nodes.drop_last(), c, k);
        let rest = strip_nodes(nodes.drop_last());
        let (c1, k1) = knot_nodes(nodes.drop_last(), c, k);
        let sn = strip_nodes(nodes);
        match nodes.last() {
            StoryNodeView::Directive(_) => {
                assert(sn == rest);
                assert(knot_node(nodes.last(), c1, k1) == (c1, k1));
            },
            other => {
                assert(sn == rest.push(strip_node(other)));
                assert(sn.drop_last() =~= rest);
                assert(sn.last() == strip_node(other));
                lemma_strip_knot_node(other, c1, k1);
                assert(knot_nodes(sn, c, k) == knot_node(sn.last(), c1, k1));
            },
        }
    }
}

proof fn lemma_strip_top_node(n: StoryNodeView, st: StoryView, k: usize)
    ensures
        top_node(strip_node(n), st, k) == top_node(n, st, k),
    decreases n, 0nat,
{
    match n {
        StoryNodeView::Knot(kn) => {
            let name = underscored(kn.identifier.name);
            let kc0 = ContainerView { name: Some(name), ..empty_container() };
            lemma_strip_knot_nodes(kn.content, kc0, k);
        },
        StoryNodeView::Logic(l) => lemma_strip_top_nodes(l.content, st, k),
        StoryNodeView::Conditional(cond) => lemma_strip_branches(cond.branches, st.root, k),
        _ => {},
    }
}

proof fn lemma_strip_top_nodes(nodes: Seq<StoryNodeView>, st: StoryView, k: usize)
    ensures
        top_nodes(strip_nodes(nodes), st, k) == top_nodes(nodes, st, k),
    decreases nodes, 1nat,
{
    if nodes.len() > 0 {
        lemma_strip_top_nodes(nodes.drop_last(), st, k);
        let rest = strip_nodes(nodes.drop_last());
        let (s1, k1) = top_nodes(nodes.drop_last(), st, k);
        let sn = strip_nodes(nodes);
        match nodes.last() {
            StoryNodeView::Directive(_) => {
                assert(sn == rest);
                assert(top_node(nodes.last(), s1, k1) == (s1, k1));
            },
            other => {
                assert(sn == rest.push(strip_node(other)));
                assert(sn.drop_last() =~= rest);
                assert(sn.last() == strip_node(other));
                lemma_strip_top_node(other, s1, k1);
                assert(top_nodes(sn, st, k) == top_node(sn.last(), s1, k1));
            },
        }
    }
}

/// Directives are stripped from the compiled story: a parsed story
/// compiles exactly as the same story with every directive taken out, at
/// the top level and inside knots, stitches, logic blocks and conditional
/// branches.
pub proof fn law_directives_leave_no_trace(sv: ParsedStoryView)
    ensures
        compile_spec(ParsedStoryView { content: strip_nodes(sv.content), ..sv }) == compile_spec(sv),
{
    let st0 = StoryView {
        variables: sv.global_variables.map_values(
            |v: crate::ink_parser::ir::VariableDeclarationView|
                VariableAssignmentView { varname: v.identifier.name, is_global: true, context_index: 0 },
        ),
        ..empty_story()
    };
    lemma_strip_top_nodes(sv.content, st0, 0);
}

// ---------------------------------------------------------------------------
// The flags of a compiled choice
// ---------------------------------------------------------------------------

proof fn lemma_flag_bits(a: u32, b: u32, c: u32, d: u32, e: u32)
    by (bit_vector)
    requires
        a == 0 || a == 16,
        b == 0 || b == 1,
        c == 0 || c == 2,
        d == 0 || d == 4,
        e == 0 || e == 8,
    ensures
        ((((a + b + c + d + e) as u32) & 16u32) != 0) == (a == 16),
        ((((a + b + c + d + e) as u32) & 1u32) != 0) == (b == 1),
        ((((a + b + c + d + e) as u32) & 2u32) != 0) == (c == 2),
        ((((a + b + c + d + e) as u32) & 4u32) != 0) == (d == 4),
        ((((a + b + c + d + e) as u32) & 8u32) != 0) == (e == 8),
        ((a + b + c + d + e) as u32) < 32,
{
}

/// A compiled choice ends in its choice point, whose flags say what the
/// parsed choice is: bit 0x10 exactly when it is once-only (a `*` bullet,
/// not a sticky `+`), 0x1 exactly when it has a condition, 0x2 exactly when
/// it has start content or inner content, 0x4 exactly when it has
/// choice-only content or brackets, 0x8 exactly when it is an invisible
/// default; no other bit is set. The choice point leads to the choice's
/// container by its name.
pub proof fn law_choice_point_flags(c: ChoiceView, n: usize)
    ensures
        match choice_outer(c, n).content.last() {
            InkObjectView::ChoicePoint(cp) => {
                &&& ((cp.flags & 16u32) != 0) == c.once_only
                &&& ((cp.flags & 1u32) != 0) == (c.condition is Some)
                &&& ((cp.flags & 2u32) != 0) == (c.start_content is Some || c.inner_content.items.len() > 0)
                &&& ((cp.flags & 4u32) != 0) == (c.option_only_content is Some || c.has_brackets)
                &&& ((cp.flags & 8u32) != 0) == c.is_invisible_default
                &&& cp.flags < 32
                &&& cp.target_path == ".^."@ + choice_name(c, n)
            },
            _ => false,
        },
{
    let a: u32 = if c.once_only { 16 } else { 0 };
    let b: u32 = if c.condition is Some { 1 } else { 0 };
    let d2: u32 = if c.start_content is Some || c.inner_content.items.len() > 0 { 2 } else { 0 };
    let d4: u32 = if c.option_only_content is Some || c.has_brackets { 4 } else { 0 };
    let d8: u32 = if c.is_invisible_default { 8 } else { 0 };
    lemma_flag_bits(a, b, d2, d4, d8);
    assert(choice_flags(c) == (a + b + d2 + d4 + d8) as u32);
}

} // verus!
