use idb::ast::{QueryMode, QueryNode, SortDirection};
use idb::bridge::compile_request_plan;
use idb::lexer::{lex, ParserError, Token};
use idb::literal::{
    literal_reading_debug_text, literal_reads_at_most_one, literal_reading_text, literal_whole_value,
};
use idb::parser::{number_display_text, parse_query};
use idb::planner::{
    logical_plan_from_ast, plan_query_text, FilterExpr, LogicalPlanSummary, PlanMode, PlanSource,
    PlanSourceKind, PlannerError, TransformExpr,
};
use idb::query::{PredicateOp, QueryOrderDirection};

fn compile(query: &str, strict: bool) -> Result<idb::bridge::CompiledRequest, PlannerError> {
    let plan = plan_query_text(query)?;
    compile_request_plan(&plan, 100, 16, strict)
}

#[test]
fn parses_hybrid_query_shape() {
    let ast = parse_query(
        "Product where price < 3000 and meaning(\"elegant traditional\") | top(5, price desc)",
    )
    .expect("parse hybrid");
    assert_eq!(ast.mode, QueryMode::Once);
    assert_eq!(ast.root_name(), "TopK");
    assert_eq!(ast.mode_name(), "once");
    assert_eq!(ast.predicate_count(), 2);
    assert!(ast.has_semantic_predicate());
    assert_eq!(ast.traversal_hops(), None);
    match &ast.root {
        QueryNode::TopK { k, order_by, .. } => {
            assert_eq!(*k, 5);
            let order = order_by.as_ref().expect("order");
            assert_eq!(order.field, "price");
            assert_eq!(order.direction, SortDirection::Desc);
        }
        other => panic!("unexpected root {other:?}"),
    }
}

#[test]
fn parses_watch_traversal() {
    let ast = parse_query("watch Brand(\"Norn Gold\") -> Product where price < 3000")
        .expect("parse watch traversal");
    assert_eq!(ast.mode, QueryMode::Watch);
    assert_eq!(ast.mode_name(), "watch");
    assert_eq!(ast.root_name(), "Traversal");
    assert_eq!(ast.traversal_hops(), Some(1));
    assert_eq!(ast.predicate_count(), 1);
    assert!(!ast.has_semantic_predicate());
}

#[test]
fn keywords_are_case_insensitive() {
    let ast = parse_query("WATCH Product WHERE a == TRUE | SORT(a DESC) | Count()").expect("parse");
    assert_eq!(ast.mode, QueryMode::Watch);
    assert_eq!(ast.root_name(), "Aggregate");
}

#[test]
fn lexer_reports_unexpected_character_position() {
    let err = lex("Product where a # 1").expect_err("lex error");
    assert_eq!(
        err,
        ParserError::Lex {
            position: 16,
            message: "unexpected character '#'".to_string()
        }
    );
    assert_eq!(err.message(), "lex error at byte 16: unexpected character '#'");
}

#[test]
fn lexer_keeps_numbers_and_unescapes_strings() {
    let tokens = lex("x in 1.50..7 \"a\\\"b\\n\"").expect("lex");
    assert_eq!(tokens.len(), 6);
    assert!(matches!(&tokens[2], Token::Number(n) if n.text == "1.50"));
    assert!(matches!(tokens[3], Token::DotDot));
    assert!(matches!(&tokens[4], Token::Number(n) if n.text == "7"));
    assert!(matches!(&tokens[5], Token::String(s) if s == "a\"b\n"));
}

#[test]
fn lexer_rejects_unterminated_string() {
    let err = lex("Product where name == \"abc").expect_err("unterminated");
    assert_eq!(
        err,
        ParserError::Lex {
            position: 22,
            message: "unterminated string literal".to_string()
        }
    );
}

#[test]
fn parser_reports_unknown_transform() {
    let err = parse_query("Product | explode(x)").expect_err("unknown transform");
    assert_eq!(
        err,
        ParserError::Parse {
            position: 3,
            message: "unknown transform: explode".to_string()
        }
    );
}

#[test]
fn parser_reports_what_it_expected() {
    let err = parse_query("Product where price <").expect_err("missing literal");
    assert_eq!(
        err,
        ParserError::Parse {
            position: 4,
            message: "expected literal, found None".to_string()
        }
    );
    let err = parse_query("Product where (").expect_err("missing field");
    assert_eq!(
        err,
        ParserError::Parse {
            position: 3,
            message: "expected identifier, found Some(LParen)".to_string()
        }
    );
    let err = parse_query("Product | top(x)").expect_err("non-number");
    assert_eq!(
        err,
        ParserError::Parse {
            position: 5,
            message: "expected number, found Some(Ident(\"x\"))".to_string()
        }
    );
}

#[test]
fn parser_rejects_fractional_bounds_and_trailing_tokens() {
    let err = parse_query("Product | take(2.5)").expect_err("fractional");
    assert_eq!(
        err,
        ParserError::Parse {
            position: 5,
            message: "expected integer number, got 2.5".to_string()
        }
    );
    let err = parse_query("Product Product").expect_err("trailing");
    assert_eq!(
        err,
        ParserError::Parse {
            position: 1,
            message: "unexpected trailing tokens".to_string()
        }
    );
    let err = parse_query("Product | sort(a").expect_err("missing paren");
    assert_eq!(
        err,
        ParserError::Parse {
            position: 5,
            message: "expected token RParen".to_string()
        }
    );
}

#[test]
fn integral_number_with_zero_fraction_is_a_bound() {
    let ast = parse_query("Product | take(3.00)").expect("parse");
    match ast.root {
        QueryNode::Take { n, .. } => assert_eq!(n, 3),
        other => panic!("unexpected root {other:?}"),
    }
}

#[test]
fn transform_stage_order_is_source_to_sink() {
    let plan = plan_query_text("Product where price < 3000 | sort(price desc) | top(3)")
        .expect("plan query");

    assert_eq!(plan.transforms.len(), 2);
    assert!(matches!(plan.transforms[0], TransformExpr::Sort { .. }));
    assert!(matches!(plan.transforms[1], TransformExpr::TopK { .. }));
}

#[test]
fn plan_keeps_mode_filters_and_hops() {
    let ast = parse_query("watch Brand(\"Norn Gold\") <- Maker -> Product where a == 1 and b in 1..2")
        .expect("parse");
    let plan = logical_plan_from_ast(&ast).expect("plan");
    assert_eq!(plan.mode, PlanMode::Watch);
    assert_eq!(plan.filters.len(), 2);
    assert!(matches!(plan.filters[1], FilterExpr::Range { .. }));
    match &plan.source {
        PlanSource::Traversal { steps, directions } => {
            assert_eq!(steps.len(), 3);
            assert_eq!(directions.len(), 2);
        }
        other => panic!("unexpected source {other:?}"),
    }
    let summary = LogicalPlanSummary::from_plan(&plan);
    assert_eq!(summary.source_kind, PlanSourceKind::Traversal);
    assert_eq!(summary.filter_count, 2);
    assert_eq!(summary.transform_count, 0);
    assert!(!summary.has_semantic_filter);
}

#[test]
fn plan_reports_parse_failures_with_their_text() {
    let err = plan_query_text("Product |").expect_err("parse failure");
    assert_eq!(
        err.message(),
        "parse failure: parse error at token 2: expected identifier, found None"
    );
}

#[test]
fn bridge_maps_supported_scan_filter_top_subset() {
    let request = compile("Product where price < 1000 and status == active | top(4)", true)
        .expect("bridge request");
    assert_eq!(request.top_k, 4);
    assert_eq!(request.predicates.len(), 2);
    assert_eq!(request.predicates[0].op, PredicateOp::Lt);
    assert!(request.order_by.is_none());
}

#[test]
fn bridge_compiles_topk_ordering() {
    let request = compile("Product where price < 1000 | top(4, price desc)", true)
        .expect("ordered top should compile");
    let order_by = request.order_by.expect("order_by");
    assert_eq!(order_by.field, "price");
    assert_eq!(order_by.direction, QueryOrderDirection::Desc);
}

#[test]
fn bridge_compiles_sort_take_ordering() {
    let request = compile("Product where price < 1000 | sort(price desc) | take(2)", true)
        .expect("sort+take should compile");
    assert_eq!(request.top_k, 2);
    let order_by = request.order_by.expect("order_by");
    assert_eq!(order_by.field, "price");
    assert_eq!(order_by.direction, QueryOrderDirection::Desc);
}

#[test]
fn execution_projection_supports_traversal_source() {
    let plan = plan_query_text("Brand(\"Norn Gold\") -> Product where price < 3000 | top(5)")
        .expect("plan traversal");
    let request = compile_request_plan(&plan, 100, 16, false)
        .expect("execution projection should compile traversal");
    assert_eq!(request.top_k, 5);
    assert_eq!(request.predicates.len(), 1);

    let strict = compile_request_plan(&plan, 100, 16, true)
        .expect_err("strict bridge should keep rejecting traversal source");
    assert!(strict.message().contains("traversal sources"));
}

#[test]
fn bridge_rejects_watch_mode() {
    let watch_err = compile("watch Product where price < 1000 | top(4)", true)
        .expect_err("watch should be unsupported");
    assert!(watch_err.message().contains("watch mode"));
}

#[test]
fn bridge_compiles_semantic_threshold_and_rejects_invalid_bounds() {
    let request = compile("Product where meaning(\"trending\", threshold=0.8) | top(4)", true)
        .expect("threshold semantic query should compile");
    assert_eq!(request.thresholds.len(), 1);
    assert_eq!(request.thresholds[0].text, "0.8");
    assert_eq!(request.semantic_queries, vec!["trending".to_string()]);

    let invalid = compile("Product where meaning(\"trending\", threshold=1.5) | top(4)", true)
        .expect_err("invalid threshold should fail");
    assert!(invalid.message().contains("between -1.0 and 1.0"));
}

#[test]
fn bridge_rejects_conflicting_sort_and_top_ordering() {
    let conflict = compile("Product | sort(price asc) | top(2, price desc)", true)
        .expect_err("conflicting ordering should fail");
    let message = conflict.message();
    assert!(
        message.contains("conflicting ordering transforms")
            || message.contains("conflicting top() order-by clauses")
    );
}

#[test]
fn bridge_splits_ranges_into_bounds_and_rejects_aggregates() {
    let request = compile("Product where price in 10..20", true).expect("range");
    assert_eq!(request.predicates.len(), 2);
    assert_eq!(request.predicates[0].op, PredicateOp::Gte);
    assert_eq!(request.predicates[1].op, PredicateOp::Lte);
    assert_eq!(request.top_k, 100);

    let err = compile("Product | group(brand)", true).expect_err("group unsupported");
    assert_eq!(
        err,
        PlannerError::Unsupported(
            "only sort/top/take transforms are currently supported in CPU request bridge"
                .to_string()
        )
    );
    let err = compile("Product | take(0)", true).expect_err("zero bound");
    assert_eq!(
        err,
        PlannerError::InvalidPlan("top_k resolved to 0, expected positive bound".to_string())
    );
}

#[test]
fn bridge_requires_embedding_dimensions_for_semantic_filters() {
    let plan = plan_query_text("Product where meaning(\"a\")").expect("plan");
    let err = compile_request_plan(&plan, 10, 0, true).expect_err("no dimensions");
    assert_eq!(
        err,
        PlannerError::InvalidPlan("semantic embedding dimensions must be > 0".to_string())
    );
}

#[test]
fn explain_reports_supported_projection() {
    let explain = idb::bridge::explain_query_text("Product where price < 1000 | top(4, price desc)", 100, 16)
        .expect("explain should succeed");
    assert_eq!(explain.summary.filter_count, 1);
    assert_eq!(explain.summary.transform_count, 1);
    assert!(matches!(explain.summary.source_kind, PlanSourceKind::EntityScan));
    match explain.request_projection {
        idb::bridge::RequestProjectionStatus::Supported(request) => {
            assert_eq!(request.top_k, 4);
            assert_eq!(request.order_by.expect("order").field, "price");
        }
        idb::bridge::RequestProjectionStatus::Unsupported { reason } => {
            panic!("expected supported projection, got unsupported: {reason}")
        }
    }
}

#[test]
fn explain_reports_unsupported_projection_reason() {
    let explain = idb::bridge::explain_query_text("watch Product where price < 1000 | top(4)", 100, 16)
        .expect("plan-level explain should still succeed");
    match explain.request_projection {
        idb::bridge::RequestProjectionStatus::Supported(_) => panic!("expected unsupported projection"),
        idb::bridge::RequestProjectionStatus::Unsupported { reason } => {
            assert!(reason.contains("watch mode"));
        }
    }
}

#[test]
fn explain_reports_supported_projection_for_traversal() {
    let explain = idb::bridge::explain_query_text(
        "Brand(\"Norn Gold\") -> Product where price < 3000 | top(5)",
        100,
        16,
    )
    .expect("explain should succeed");
    assert!(matches!(explain.summary.source_kind, PlanSourceKind::Traversal));
    match explain.request_projection {
        idb::bridge::RequestProjectionStatus::Supported(request) => {
            assert_eq!(request.top_k, 5);
            assert_eq!(request.predicates.len(), 1);
        }
        idb::bridge::RequestProjectionStatus::Unsupported { reason } => {
            panic!("expected traversal explain to be supported, got: {reason}")
        }
    }
}

#[test]
fn explain_reports_parse_failure_as_error() {
    let err = idb::bridge::explain_query_text("Product where", 100, 16).expect_err("parse failure");
    assert!(err.message().starts_with("parse failure: "));
}

#[test]
fn threshold_refusal_prints_the_value_not_the_spelling() {
    let err = compile("Product where meaning(\"trending\", threshold=1.50) | top(4)", true)
        .expect_err("out of range");
    assert_eq!(
        err.message(),
        "invalid plan: semantic threshold must be between -1.0 and 1.0, got 1.5"
    );
    let err = compile("Product where meaning(\"trending\", threshold=02.0) | top(4)", true)
        .expect_err("out of range");
    assert!(err.message().ends_with("got 2"), "{}", err.message());
}

#[test]
fn fractional_bound_refusal_prints_the_value() {
    let err = parse_query("Product | take(2.50)").expect_err("fractional");
    assert_eq!(
        err,
        ParserError::Parse {
            position: 5,
            message: "expected integer number, got 2.5".to_string()
        }
    );
}

#[test]
fn number_literals_read_as_their_decimal_value() {
    assert_eq!(number_display_text("007.50"), "7.5");
    assert_eq!(number_display_text("0.0"), "0");
    assert_eq!(number_display_text("000"), "0");
    assert_eq!(number_display_text("10"), "10");
    assert_eq!(number_display_text("100.000"), "100");
    assert_eq!(number_display_text("0.05"), "0.05");
}

fn take_bound(query: &str) -> u64 {
    match parse_query(query).expect("parse").root {
        QueryNode::Take { n, .. } => n,
        other => panic!("unexpected root {other:?}"),
    }
}

#[test]
fn thresholds_are_judged_by_the_float_they_read_as() {
    compile("Product where meaning(\"trending\", threshold=1.00000000000000001) | top(4)", true)
        .expect("reads as 1.0");
    compile("Product where meaning(\"trending\", threshold=1.000000000000000111) | top(4)", true)
        .expect("just below 1 + 2^-53, reads as 1.0");
    compile("Product where meaning(\"trending\", threshold=1.00000000000000011102230246251565404236316680908203125) | top(4)", true)
        .expect("exactly 1 + 2^-53 ties to 1.0");
    compile("Product where meaning(\"trending\", threshold=1.0000000000000001110224) | top(4)", true)
        .expect_err("above 1 + 2^-53 reads as the next float");
}

#[test]
fn bounds_are_the_whole_numbers_the_literals_read_as() {
    assert_eq!(take_bound("Product | take(3.00000000000000001)"), 3);
    assert_eq!(take_bound("Product | take(9007199254740993)"), 9_007_199_254_740_992);
    assert_eq!(take_bound("Product | take(9007199254740995)"), 9_007_199_254_740_996);
    assert_eq!(take_bound("Product | take(9007199254740993.1)"), 9_007_199_254_740_994);
    assert_eq!(take_bound("Product | take(4503599627370496.5)"), 4_503_599_627_370_496);
    assert_eq!(take_bound("Product | take(4503599627370497.5)"), 4_503_599_627_370_498);
    assert_eq!(take_bound("Product | take(0.99999999999999995)"), 1);
    assert_eq!(take_bound("Product | take(99999999999999999999999)"), u64::MAX);
    let err = parse_query("Product | take(0.9999999999999999)").expect_err("reads below one");
    assert!(matches!(err, ParserError::Parse { .. }));
}

#[test]
fn literals_too_large_for_a_float_read_as_infinity() {
    let huge = format!("1{}", "0".repeat(309));
    assert_eq!(literal_reading_text(&huge), "inf");
    assert_eq!(literal_whole_value(&huge), None);
    let err = parse_query(&format!("Product | take({huge})")).expect_err("infinite");
    assert_eq!(
        err,
        ParserError::Parse {
            position: 5,
            message: "expected integer number, got inf".to_string()
        }
    );
    let largest = format!("17976931348623157{}", "0".repeat(292));
    assert_eq!(literal_whole_value(&largest), Some(1u128 << 66));
}

#[test]
fn tiny_literals_read_as_zero() {
    let below_half_smallest = format!("0.{}247", "0".repeat(323));
    assert_eq!(literal_whole_value(&below_half_smallest), Some(0));
    let above_half_smallest = format!("0.{}248", "0".repeat(323));
    assert_eq!(literal_whole_value(&above_half_smallest), None);
    assert!(literal_reads_at_most_one("0.5"));
    assert!(!literal_reads_at_most_one("2"));
}

#[test]
fn number_tokens_are_named_by_their_float() {
    assert_eq!(literal_reading_debug_text("3"), "3.0");
    assert_eq!(literal_reading_debug_text("1.50"), "1.5");
    assert_eq!(literal_reading_debug_text("000.0"), "0.0");
    assert_eq!(literal_reading_debug_text("0.0001"), "0.0001");
    assert_eq!(literal_reading_debug_text("0.00001"), "1e-5");
    assert_eq!(literal_reading_debug_text("0.000012500"), "1.25e-5");
    assert_eq!(literal_reading_debug_text("1000000000000000"), "1000000000000000.0");
    assert_eq!(literal_reading_debug_text("10000000000000000"), "1e16");
    assert_eq!(literal_reading_debug_text("25000000000000000.0"), "2.5e16");
    let err = parse_query("Product where price == ==").expect_err("no literal");
    assert!(matches!(err, ParserError::Parse { .. }));
    let err = parse_query("Product | take(3) 7").expect_err("trailing");
    assert!(matches!(err, ParserError::Parse { .. }));
    let err = parse_query("Product | sort(3)").expect_err("number for a field");
    assert_eq!(
        err,
        ParserError::Parse {
            position: 5,
            message: "expected identifier, found Some(Number(3.0))".to_string()
        }
    );
}
