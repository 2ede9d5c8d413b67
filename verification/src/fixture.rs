//! The canonical fixture of a parsed query: a JSON document, written here as
//! the stream of its events (values, keys, and the brackets of lists and
//! objects) in document order.
use vstd::prelude::*;

use crate::ast::{
    AggregateOp, Literal, LiteralV, OrderBy, OrderByV, Predicate, PredicateOp, PredicateV,
    QueryAst, QueryAstV, QueryNode, QueryNodeV, SortDirection, TraversalDirection, TraversalStep,
    TraversalStepV, mode_text, predicates_view, steps_view,
};
use crate::literal::{float_whole, literal_whole_value, saturate_i64};

verus! {

/// One event of a JSON document.
#[derive(Debug, Clone, PartialEq, Eq)]
pub enum JsonEvent {
    Null,
    Bool(bool),
    UInt(u64),
    /// A number with a fractional part, as written.
    Float(String),
    Str(String),
    BeginList,
    EndList,
    BeginObject,
    Key(String),
    EndObject,
}

pub ghost enum JsonEventV {
    Null,
    Bool(bool),
    UInt(u64),
    Float(Seq<char>),
    Str(Seq<char>),
    BeginList,
    EndList,
    BeginObject,
    Key(Seq<char>),
    EndObject,
}

impl View for JsonEvent {
    type V = JsonEventV;

    open spec fn view(&self) -> JsonEventV {
        match self {
            JsonEvent::Null => JsonEventV::Null,
            JsonEvent::Bool(b) => JsonEventV::Bool(*b),
            JsonEvent::UInt(n) => JsonEventV::UInt(*n),
            JsonEvent::Float(t) => JsonEventV::Float(t@),
            JsonEvent::Str(s) => JsonEventV::Str(s@),
            JsonEvent::BeginList => JsonEventV::BeginList,
            JsonEvent::EndList => JsonEventV::EndList,
            JsonEvent::BeginObject => JsonEventV::BeginObject,
            JsonEvent::Key(k) => JsonEventV::Key(k@),
            JsonEvent::EndObject => JsonEventV::EndObject,
        }
    }
}

pub open spec fn events_view(s: Seq<JsonEvent>) -> Seq<JsonEventV> {
    s.map_values(|e: JsonEvent| e@)
}

// ----- names -----
pub open spec fn sort_direction_text(d: SortDirection) -> Seq<char> {
    match d {
        SortDirection::Asc => "asc"@,
        SortDirection::Desc => "desc"@,
    }
}

pub open spec fn traversal_direction_text(d: TraversalDirection) -> Seq<char> {
    match d {
        TraversalDirection::Outbound => "out"@,
        TraversalDirection::Inbound => "in"@,
    }
}

pub open spec fn aggregate_op_text(op: AggregateOp) -> Seq<char> {
    match op {
        AggregateOp::Count => "count"@,
        AggregateOp::Sum => "sum"@,
        AggregateOp::Avg => "avg"@,
        AggregateOp::Min => "min"@,
        AggregateOp::Max => "max"@,
    }
}

pub open spec fn predicate_op_text(op: PredicateOp) -> Seq<char> {
    match op {
        PredicateOp::Eq => "eq"@,
        PredicateOp::Ne => "ne"@,
        PredicateOp::Lt => "lt"@,
        PredicateOp::Lte => "lte"@,
        PredicateOp::Gt => "gt"@,
        PredicateOp::Gte => "gte"@,
    }
}

// ----- the fixture as events -----
/// A literal: a number that reads as a whole number as that integer (at
/// most `i64::MAX`), another number as written, a string or identifier as a
/// string.
pub open spec fn literal_events(l: LiteralV) -> Seq<JsonEventV> {
    match l {
        LiteralV::String(s) => seq![JsonEventV::Str(s)],
        LiteralV::Number(t) => match float_whole(t) {
            Some(v) => seq![JsonEventV::UInt(saturate_i64(v))],
            None => seq![JsonEventV::Float(t)],
        },
        LiteralV::Bool(b) => seq![JsonEventV::Bool(b)],
        LiteralV::Ident(s) => seq![JsonEventV::Str(s)],
    }
}

/// The opening of an object with its `type`.
pub open spec fn typed(kind: Seq<char>) -> Seq<JsonEventV> {
    seq![JsonEventV::BeginObject, JsonEventV::Key("type"@), JsonEventV::Str(kind)]
}

pub open spec fn text_field(key: Seq<char>, value: Seq<char>) -> Seq<JsonEventV> {
    seq![JsonEventV::Key(key), JsonEventV::Str(value)]
}

pub open spec fn predicate_events(p: PredicateV) -> Seq<JsonEventV> {
    match p {
        PredicateV::Field { field, op, value } => typed("FieldPredicate"@) + text_field(
            "field"@,
            field,
        ) + text_field("op"@, predicate_op_text(op)) + seq![JsonEventV::Key("value"@)]
            + literal_events(value) + seq![JsonEventV::EndObject],
        PredicateV::Range { field, start, end } => typed("RangePredicate"@) + text_field(
            "field"@,
            field,
        ) + seq![JsonEventV::Key("start"@)] + literal_events(start) + seq![JsonEventV::Key("end"@)]
            + literal_events(end) + seq![JsonEventV::EndObject],
        PredicateV::Semantic { query, threshold } => typed("SemanticPredicate"@) + text_field(
            "function"@,
            "meaning"@,
        ) + text_field("query"@, query) + seq![
            JsonEventV::Key("threshold"@),
            match threshold {
                Some(t) => JsonEventV::Float(t),
                None => JsonEventV::Null,
            },
            JsonEventV::EndObject,
        ],
    }
}

/// The predicates, one object each, in order.
pub open spec fn predicate_list_events(ps: Seq<PredicateV>) -> Seq<JsonEventV>
    decreases ps.len(),
{
    if ps.len() == 0 {
        Seq::empty()
    } else {
        predicate_list_events(ps.drop_last()) + predicate_events(ps.last())
    }
}

pub open spec fn step_events(s: TraversalStepV) -> Seq<JsonEventV> {
    match s {
        TraversalStepV::EntityScan(e) => typed("EntityScan"@) + text_field("entity"@, e) + seq![
            JsonEventV::EndObject,
        ],
        TraversalStepV::EntityRef { entity, id } => typed("EntityRef"@) + text_field(
            "entity"@,
            entity,
        ) + seq![JsonEventV::Key("id"@)] + literal_events(id) + seq![JsonEventV::EndObject],
    }
}

pub open spec fn edge_events(d: TraversalDirection) -> Seq<JsonEventV> {
    typed("Edge"@) + text_field("direction"@, traversal_direction_text(d)) + seq![
        JsonEventV::EndObject,
    ]
}

/// The first `n` steps, each followed by the edge to the next where there is one.
pub open spec fn hop_list_events(
    steps: Seq<TraversalStepV>,
    dirs: Seq<TraversalDirection>,
    n: int,
) -> Seq<JsonEventV>
    decreases n,
{
    if n <= 0 {
        Seq::empty()
    } else {
        hop_list_events(steps, dirs, n - 1) + step_events(steps[n - 1]) + if n - 1 < dirs.len() {
            edge_events(dirs[n - 1])
        } else {
            Seq::empty()
        }
    }
}

pub open spec fn traversal_object(
    steps: Seq<TraversalStepV>,
    dirs: Seq<TraversalDirection>,
    preds: Seq<PredicateV>,
    mode: Seq<char>,
) -> Seq<JsonEventV> {
    typed("Traversal"@) + text_field("mode"@, mode) + seq![
        JsonEventV::Key("steps"@),
        JsonEventV::BeginList,
    ] + hop_list_events(steps, dirs, steps.len() as int) + seq![
        JsonEventV::EndList,
        JsonEventV::Key("where"@),
        JsonEventV::BeginList,
    ] + predicate_list_events(preds) + seq![JsonEventV::EndList, JsonEventV::EndObject]
}

pub open spec fn order_by_events(o: Option<OrderByV>) -> Seq<JsonEventV> {
    match o {
        Some(o) => seq![JsonEventV::BeginObject] + text_field("field"@, o.field) + text_field(
            "direction"@,
            sort_direction_text(o.direction),
        ) + seq![JsonEventV::EndObject],
        None => seq![JsonEventV::Null],
    }
}

pub open spec fn top_k_object(
    k: u64,
    order_by: Option<OrderByV>,
    source: Seq<JsonEventV>,
    mode: Seq<char>,
) -> Seq<JsonEventV> {
    typed("TopK"@) + seq![JsonEventV::Key("k"@), JsonEventV::UInt(k), JsonEventV::Key("order_by"@)]
        + order_by_events(order_by) + seq![JsonEventV::Key("source"@)] + source + text_field(
        "mode"@,
        mode,
    ) + seq![JsonEventV::EndObject]
}

/// A node as the source of another: plans run once, and an entity scan with
/// predicates is a filter over the scan.
pub open spec fn source_events(n: QueryNodeV) -> Seq<JsonEventV>
    decreases n,
{
    match n {
        QueryNodeV::EntityScan { entity, predicates } => {
            let base = typed("EntityScan"@) + text_field("entity"@, entity) + seq![
                JsonEventV::EndObject,
            ];
            if predicates.len() == 0 {
                base
            } else {
                typed("Filter"@) + seq![JsonEventV::Key("predicates"@), JsonEventV::BeginList]
                    + predicate_list_events(predicates) + seq![
                    JsonEventV::EndList,
                    JsonEventV::Key("source"@),
                ] + base + seq![JsonEventV::EndObject]
            }
        },
        QueryNodeV::Traversal { steps, directions, predicates } => traversal_object(
            steps,
            directions,
            predicates,
            "once"@,
        ),
        QueryNodeV::TopK { k, order_by, source } => top_k_object(
            k,
            order_by,
            source_events(*source),
            "once"@,
        ),
        QueryNodeV::Sort { field, direction, source } => typed("Sort"@) + text_field(
            "field"@,
            field,
        ) + text_field("direction"@, sort_direction_text(direction)) + seq![
            JsonEventV::Key("source"@),
        ] + source_events(*source) + seq![JsonEventV::EndObject],
        QueryNodeV::Group { field, source } => typed("Group"@) + text_field("field"@, field) + seq![
            JsonEventV::Key("source"@),
        ] + source_events(*source) + seq![JsonEventV::EndObject],
        QueryNodeV::Aggregate { op, field, source } => typed("Aggregate"@) + text_field(
            "op"@,
            aggregate_op_text(op),
        ) + seq![
            JsonEventV::Key("field"@),
            match field {
                Some(f) => JsonEventV::Str(f),
                None => JsonEventV::Null,
            },
            JsonEventV::Key("source"@),
        ] + source_events(*source) + seq![JsonEventV::EndObject],
        QueryNodeV::Take { n, source } => typed("Take"@) + seq![
            JsonEventV::Key("n"@),
            JsonEventV::UInt(n),
            JsonEventV::Key("source"@),
        ] + source_events(*source) + seq![JsonEventV::EndObject],
    }
}

/// The root of a query's fixture: a top-k or a traversal carries the query's
/// mode; any other root is written as a source.
pub open spec fn canonical_events(n: QueryNodeV, mode: Seq<char>) -> Seq<JsonEventV> {
    match n {
        QueryNodeV::TopK { k, order_by, source } => top_k_object(
            k,
            order_by,
            source_events(*source),
            mode,
        ),
        QueryNodeV::Traversal { steps, directions, predicates } => traversal_object(
            steps,
            directions,
            predicates,
            mode,
        ),
        _ => source_events(n),
    }
}

pub open spec fn ast_fixture_events(a: QueryAstV) -> Seq<JsonEventV> {
    canonical_events(a.root, mode_text(a.mode))
}

// ----- writing events -----
fn emit(out: &mut Vec<JsonEvent>, e: JsonEvent)
    ensures
        events_view(final(out)@) == events_view(old(out)@).push(e@),
{
    let ghost before = out@;
    out.push(e);
    assert(events_view(out@) =~= events_view(before).push(e@));
}

fn emit_key(out: &mut Vec<JsonEvent>, key: &str)
    ensures
        events_view(final(out)@) == events_view(old(out)@).push(JsonEventV::Key(key@)),
{
    emit(out, JsonEvent::Key(String::from_str(key)));
}

fn emit_str(out: &mut Vec<JsonEvent>, value: &str)
    ensures
        events_view(final(out)@) == events_view(old(out)@).push(JsonEventV::Str(value@)),
{
    emit(out, JsonEvent::Str(String::from_str(value)));
}

fn emit_typed(out: &mut Vec<JsonEvent>, kind: &str)
    ensures
        events_view(final(out)@) == events_view(old(out)@) + typed(kind@),
{
    let ghost start = events_view(out@);
    emit(out, JsonEvent::BeginObject);
    emit_key(out, "type");
    emit_str(out, kind);
    assert(events_view(out@) =~= start + typed(kind@));
}

fn emit_text_field(out: &mut Vec<JsonEvent>, key: &str, value: &str)
    ensures
        events_view(final(out)@) == events_view(old(out)@) + text_field(key@, value@),
{
    let ghost start = events_view(out@);
    emit_key(out, key);
    emit_str(out, value);
    assert(events_view(out@) =~= start + text_field(key@, value@));
}

fn sort_direction_name(direction: SortDirection) -> (r: &'static str)
    ensures
        r@ == sort_direction_text(direction),
{
    match direction {
        SortDirection::Asc => "asc",
        SortDirection::Desc => "desc",
    }
}

fn traversal_direction_name(direction: TraversalDirection) -> (r: &'static str)
    ensures
        r@ == traversal_direction_text(direction),
{
    match direction {
        TraversalDirection::Outbound => "out",
        TraversalDirection::Inbound => "in",
    }
}

fn aggregate_op_name(op: AggregateOp) -> (r: &'static str)
    ensures
        r@ == aggregate_op_text(op),
{
    match op {
        AggregateOp::Count => "count",
        AggregateOp::Sum => "sum",
        AggregateOp::Avg => "avg",
        AggregateOp::Min => "min",
        AggregateOp::Max => "max",
    }
}

fn predicate_op_name(op: PredicateOp) -> (r: &'static str)
    ensures
        r@ == predicate_op_text(op),
{
    match op {
        PredicateOp::Eq => "eq",
        PredicateOp::Ne => "ne",
        PredicateOp::Lt => "lt",
        PredicateOp::Lte => "lte",
        PredicateOp::Gt => "gt",
        PredicateOp::Gte => "gte",
    }
}

fn literal_to_json(literal: &Literal, out: &mut Vec<JsonEvent>)
    ensures
        events_view(final(out)@) == events_view(old(out)@) + literal_events(literal@),
{
    let ghost start = events_view(out@);
    match literal {
        Literal::String(v) => emit(out, JsonEvent::Str(v.clone())),
        Literal::Number(n) => {
            match literal_whole_value(n.text.as_str()) {
                Some(v) => {
                    let clipped: u64 = if v > 0x7fff_ffff_ffff_ffff {
                        0x7fff_ffff_ffff_ffff
                    } else {
                        v as u64
                    };
                    emit(out, JsonEvent::UInt(clipped));
                },
                None => emit(out, JsonEvent::Float(n.text.clone())),
            }
        },
        Literal::Bool(v) => emit(out, JsonEvent::Bool(*v)),
        Literal::Ident(v) => emit(out, JsonEvent::Str(v.clone())),
    }
    assert(events_view(out@) =~= start + literal_events(literal@));
}

fn predicate_to_fixture(predicate: &Predicate, out: &mut Vec<JsonEvent>)
    ensures
        events_view(final(out)@) == events_view(old(out)@) + predicate_events(predicate@),
{
    let ghost start = events_view(out@);
    match predicate {
        Predicate::Field { field, op, value } => {
            emit_typed(out, "FieldPredicate");
            emit_text_field(out, "field", field.as_str());
            emit_text_field(out, "op", predicate_op_name(*op));
            emit_key(out, "value");
            literal_to_json(value, out);
            emit(out, JsonEvent::EndObject);
        },
        Predicate::Range { field, start: low, end: high } => {
            emit_typed(out, "RangePredicate");
            emit_text_field(out, "field", field.as_str());
            emit_key(out, "start");
            literal_to_json(low, out);
            emit_key(out, "end");
            literal_to_json(high, out);
            emit(out, JsonEvent::EndObject);
        },
        Predicate::Semantic { query, threshold } => {
            emit_typed(out, "SemanticPredicate");
            emit_text_field(out, "function", "meaning");
            emit_text_field(out, "query", query.as_str());
            emit_key(out, "threshold");
            match threshold {
                Some(t) => emit(out, JsonEvent::Float(t.text.clone())),
                None => emit(out, JsonEvent::Null),
            }
            emit(out, JsonEvent::EndObject);
        },
    }
    assert(events_view(out@) =~= start + predicate_events(predicate@));
}

fn predicates_to_fixture(predicates: &Vec<Predicate>, out: &mut Vec<JsonEvent>)
    ensures
        events_view(final(out)@) == events_view(old(out)@) + predicate_list_events(
            predicates_view(predicates@),
        ),
{
    let ghost start = events_view(out@);
    let ghost ps = predicates_view(predicates@);
    let mut i: usize = 0;
    assert(ps.take(0) =~= Seq::<PredicateV>::empty());
    while i < predicates.len()
        invariant
            ps == predicates_view(predicates@),
            i <= predicates@.len(),
            events_view(out@) == start + predicate_list_events(ps.take(i as int)),
        decreases predicates@.len() - i,
    {
        predicate_to_fixture(&predicates[i], out);
        proof {
            assert(ps.take(i + 1).drop_last() =~= ps.take(i as int));
            assert(ps.take(i + 1).last() == predicates@[i as int]@);
            assert(events_view(out@) =~= start + predicate_list_events(ps.take(i + 1)));
        }
        i = i + 1;
    }
    assert(ps.take(predicates@.len() as int) =~= ps);
}

fn step_to_fixture(step: &TraversalStep, out: &mut Vec<JsonEvent>)
    ensures
        events_view(final(out)@) == events_view(old(out)@) + step_events(step@),
{
    let ghost start = events_view(out@);
    match step {
        TraversalStep::EntityScan(entity) => {
            emit_typed(out, "EntityScan");
            emit_text_field(out, "entity", entity.as_str());
            emit(out, JsonEvent::EndObject);
        },
        TraversalStep::EntityRef { entity, id } => {
            emit_typed(out, "EntityRef");
            emit_text_field(out, "entity", entity.as_str());
            emit_key(out, "id");
            literal_to_json(id, out);
            emit(out, JsonEvent::EndObject);
        },
    }
    assert(events_view(out@) =~= start + step_events(step@));
}

fn traversal_to_fixture(
    steps: &Vec<TraversalStep>,
    directions: &Vec<TraversalDirection>,
    predicates: &Vec<Predicate>,
    mode: &str,
    out: &mut Vec<JsonEvent>,
)
    ensures
        events_view(final(out)@) == events_view(old(out)@) + traversal_object(
            steps_view(steps@),
            directions@,
            predicates_view(predicates@),
            mode@,
        ),
{
    let ghost start = events_view(out@);
    let ghost sv = steps_view(steps@);
    emit_typed(out, "Traversal");
    emit_text_field(out, "mode", mode);
    emit_key(out, "steps");
    emit(out, JsonEvent::BeginList);
    let ghost head = events_view(out@);
    let mut i: usize = 0;
    while i < steps.len()
        invariant
            sv == steps_view(steps@),
            i <= steps@.len(),
            events_view(out@) == head + hop_list_events(sv, directions@, i as int),
        decreases steps@.len() - i,
    {
        let ghost before = events_view(out@);
        step_to_fixture(&steps[i], out);
        assert(sv[i as int] == steps@[i as int]@);
        if i < directions.len() {
            let ghost mid = events_view(out@);
            emit_typed(out, "Edge");
            emit_text_field(out, "direction", traversal_direction_name(directions[i]));
            emit(out, JsonEvent::EndObject);
            assert(events_view(out@) =~= mid + edge_events(directions@[i as int]));
        }
        assert(events_view(out@) =~= head + hop_list_events(sv, directions@, i + 1));
        i = i + 1;
    }
    emit(out, JsonEvent::EndList);
    emit_key(out, "where");
    emit(out, JsonEvent::BeginList);
    predicates_to_fixture(predicates, out);
    emit(out, JsonEvent::EndList);
    emit(out, JsonEvent::EndObject);
    assert(events_view(out@) =~= start + traversal_object(
        sv,
        directions@,
        predicates_view(predicates@),
        mode@,
    ));
}

fn order_by_to_fixture(order_by: &Option<OrderBy>, out: &mut Vec<JsonEvent>)
    ensures
        events_view(final(out)@) == events_view(old(out)@) + order_by_events(
            match order_by {
                Some(o) => Some(o@),
                None => None,
            },
        ),
{
    let ghost start = events_view(out@);
    match order_by {
        Some(o) => {
            emit(out, JsonEvent::BeginObject);
            emit_text_field(out, "field", o.field.as_str());
            emit_text_field(out, "direction", sort_direction_name(o.direction));
            emit(out, JsonEvent::EndObject);
        },
        None => emit(out, JsonEvent::Null),
    }
    assert(events_view(out@) =~= start + order_by_events(
        match order_by {
            Some(o) => Some(o@),
            None => None,
        },
    ));
}

fn top_k_to_fixture(
    k: u64,
    order_by: &Option<OrderBy>,
    source: &QueryNode,
    mode: &str,
    out: &mut Vec<JsonEvent>,
)
    ensures
        events_view(final(out)@) == events_view(old(out)@) + top_k_object(
            k,
            match order_by {
                Some(o) => Some(o@),
                None => None,
            },
            source_events(source@),
            mode@,
        ),
    decreases source, 1nat,
{
    let ghost start = events_view(out@);
    emit_typed(out, "TopK");
    emit_key(out, "k");
    emit(out, JsonEvent::UInt(k));
    emit_key(out, "order_by");
    order_by_to_fixture(order_by, out);
    emit_key(out, "source");
    source.to_source_fixture(out);
    emit_text_field(out, "mode", mode);
    emit(out, JsonEvent::EndObject);
    assert(events_view(out@) =~= start + top_k_object(
        k,
        match order_by {
            Some(o) => Some(o@),
            None => None,
        },
        source_events(source@),
        mode@,
    ));
}

impl QueryNode {
    /// Writes the node as the source of another node.
    fn to_source_fixture(&self, out: &mut Vec<JsonEvent>)
        ensures
            events_view(final(out)@) == events_view(old(out)@) + source_events(self@),
        decreases self, 0nat,
    {
        let ghost start = events_view(out@);
        match self {
            QueryNode::EntityScan { entity, predicates } => {
                if predicates.len() == 0 {
                    emit_typed(out, "EntityScan");
                    emit_text_field(out, "entity", entity.as_str());
                    emit(out, JsonEvent::EndObject);
                } else {
                    emit_typed(out, "Filter");
                    emit_key(out, "predicates");
                    emit(out, JsonEvent::BeginList);
                    predicates_to_fixture(predicates, out);
                    emit(out, JsonEvent::EndList);
                    emit_key(out, "source");
                    emit_typed(out, "EntityScan");
                    emit_text_field(out, "entity", entity.as_str());
                    emit(out, JsonEvent::EndObject);
                    emit(out, JsonEvent::EndObject);
                }
            },
            QueryNode::Traversal { steps, directions, predicates } => {
                traversal_to_fixture(steps, directions, predicates, "once", out);
            },
            QueryNode::TopK { k, order_by, source } => {
                top_k_to_fixture(*k, order_by, source, "once", out);
            },
            QueryNode::Sort { field, direction, source } => {
                emit_typed(out, "Sort");
                emit_text_field(out, "field", field.as_str());
                emit_text_field(out, "direction", sort_direction_name(*direction));
                emit_key(out, "source");
                source.to_source_fixture(out);
                emit(out, JsonEvent::EndObject);
            },
            QueryNode::Group { field, source } => {
                emit_typed(out, "Group");
                emit_text_field(out, "field", field.as_str());
                emit_key(out, "source");
                source.to_source_fixture(out);
                emit(out, JsonEvent::EndObject);
            },
            QueryNode::Aggregate { op, field, source } => {
                emit_typed(out, "Aggregate");
                emit_text_field(out, "op", aggregate_op_name(*op));
                emit_key(out, "field");
                match field {
                    Some(f) => emit(out, JsonEvent::Str(f.clone())),
                    None => emit(out, JsonEvent::Null),
                }
                emit_key(out, "source");
                source.to_source_fixture(out);
                emit(out, JsonEvent::EndObject);
            },
            QueryNode::Take { n, source } => {
                emit_typed(out, "Take");
                emit_key(out, "n");
                emit(out, JsonEvent::UInt(*n));
                emit_key(out, "source");
                source.to_source_fixture(out);
                emit(out, JsonEvent::EndObject);
            },
        }
        assert(events_view(out@) =~= start + source_events(self@));
    }

    /// Writes the node as the root of a query run in `mode`.
    fn to_canonical_with_mode(&self, mode: &str, out: &mut Vec<JsonEvent>)
        ensures
            events_view(final(out)@) == events_view(old(out)@) + canonical_events(self@, mode@),
    {
        match self {
            QueryNode::TopK { k, order_by, source } => {
                top_k_to_fixture(*k, order_by, source, mode, out);
            },
            QueryNode::Traversal { steps, directions, predicates } => {
                traversal_to_fixture(steps, directions, predicates, mode, out);
            },
            _ => self.to_source_fixture(out),
        }
    }
}

impl QueryAst {
    /// The query's canonical fixture, as the events of its JSON document.
    pub fn to_canonical_fixture(&self) -> (r: Vec<JsonEvent>)
        ensures
            events_view(r@) == ast_fixture_events(self@),
    {
        let mut out: Vec<JsonEvent> = Vec::new();
        let mode = self.mode_name();
        self.root.to_canonical_with_mode(mode, &mut out);
        assert(events_view(Seq::<JsonEvent>::empty()) =~= Seq::<JsonEventV>::empty());
        assert(Seq::<JsonEventV>::empty() + ast_fixture_events(self@) =~= ast_fixture_events(self@));
        out
    }
}

} // verus!
