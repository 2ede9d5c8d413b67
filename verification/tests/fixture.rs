use idb::fixture::JsonEvent;
use idb::parser::parse_query;

/// Writes the events as compact JSON text, keys in the order they come.
fn render(events: &[JsonEvent]) -> String {
    let mut out = String::new();
    let mut need_comma = false;
    for e in events {
        let is_close = matches!(e, JsonEvent::EndList | JsonEvent::EndObject);
        if need_comma && !is_close {
            out.push(',');
        }
        match e {
            JsonEvent::Null => out.push_str("null"),
            JsonEvent::Bool(b) => out.push_str(if *b { "true" } else { "false" }),
            JsonEvent::UInt(n) => out.push_str(&n.to_string()),
            JsonEvent::Float(t) => out.push_str(t),
            JsonEvent::Str(s) => out.push_str(&format!("\"{s}\"")),
            JsonEvent::BeginList => out.push('['),
            JsonEvent::EndList => out.push(']'),
            JsonEvent::BeginObject => out.push('{'),
            JsonEvent::EndObject => out.push('}'),
            JsonEvent::Key(k) => out.push_str(&format!("\"{k}\":")),
        }
        need_comma = !matches!(
            e,
            JsonEvent::BeginList | JsonEvent::BeginObject | JsonEvent::Key(_)
        );
    }
    out
}

fn fixture_text(query: &str) -> String {
    let ast = parse_query(query).expect("parse");
    render(&ast.to_canonical_fixture())
}

#[test]
fn canonical_fixture_of_hybrid_query() {
    assert_eq!(
        fixture_text(
            "Product where price < 3000 and meaning(\"elegant traditional\") | top(5, price desc)"
        ),
        [
            "{\"type\":\"TopK\",\"k\":5,\"order_by\":{\"field\":\"price\",\"direction\":\"desc\"},",
            "\"source\":{\"type\":\"Filter\",\"predicates\":[",
            "{\"type\":\"FieldPredicate\",\"field\":\"price\",\"op\":\"lt\",\"value\":3000},",
            "{\"type\":\"SemanticPredicate\",\"function\":\"meaning\",\"query\":\"elegant traditional\",\"threshold\":null}],",
            "\"source\":{\"type\":\"EntityScan\",\"entity\":\"Product\"}},\"mode\":\"once\"}"
        ].concat()
    );
}

#[test]
fn canonical_fixture_of_watch_traversal() {
    assert_eq!(
        fixture_text("watch Brand(\"Norn Gold\") -> Product where price < 3000"),
        [
            "{\"type\":\"Traversal\",\"mode\":\"watch\",\"steps\":[",
            "{\"type\":\"EntityRef\",\"entity\":\"Brand\",\"id\":\"Norn Gold\"},",
            "{\"type\":\"Edge\",\"direction\":\"out\"},",
            "{\"type\":\"EntityScan\",\"entity\":\"Product\"}],",
            "\"where\":[{\"type\":\"FieldPredicate\",\"field\":\"price\",\"op\":\"lt\",\"value\":3000}]}"
        ].concat()
    );
}

#[test]
fn fixture_of_plain_scan_and_transforms() {
    assert_eq!(
        fixture_text("Product"),
        "{\"type\":\"EntityScan\",\"entity\":\"Product\"}"
    );
    assert_eq!(
        fixture_text("Product | sort(price asc) | take(3)"),
        [
            "{\"type\":\"Take\",\"n\":3,\"source\":{\"type\":\"Sort\",\"field\":\"price\",",
            "\"direction\":\"asc\",\"source\":{\"type\":\"EntityScan\",\"entity\":\"Product\"}}}"
        ].concat()
    );
    assert_eq!(
        fixture_text("Product | group(brand) | count()"),
        [
            "{\"type\":\"Aggregate\",\"op\":\"count\",\"field\":null,\"source\":",
            "{\"type\":\"Group\",\"field\":\"brand\",\"source\":",
            "{\"type\":\"EntityScan\",\"entity\":\"Product\"}}}"
        ].concat()
    );
}

#[test]
fn fixture_numbers_keep_whole_and_fractional_values() {
    let text = fixture_text("Product where price >= 12.50 and stock == 7.0");
    assert!(text.contains("\"op\":\"gte\",\"value\":12.50}"));
    assert!(text.contains("\"op\":\"eq\",\"value\":7}"));
    let big = fixture_text("Product where id == 99999999999999999999");
    assert!(big.contains("\"value\":9223372036854775807}"));
}

#[test]
fn fixture_of_semantic_threshold_and_range() {
    let text = fixture_text(
        "Product where meaning(\"warm\", threshold = 0.8) and price in 10..20",
    );
    assert!(text.contains("\"query\":\"warm\",\"threshold\":0.8}"));
    assert!(text.contains(
        "{\"type\":\"RangePredicate\",\"field\":\"price\",\"start\":10,\"end\":20}"
    ));
}
