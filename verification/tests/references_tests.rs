use http_broker::json::{parse_json_schema, tree_of, Json};
use http_broker::references::{
    all_end, chars_of, check_ids, check_references, count_objects, ends, find_member, finds,
    follow_pointer, fragment_of, get_member, has_mark, index_of, next_of, part_of, replace,
    same_text, Mark,
};

fn tree(text: &str) -> Json {
    tree_of(&parse_json_schema(text).unwrap())
}

fn chars(text: &str) -> Vec<char> {
    text.chars().collect()
}

fn text_of(node: Option<&Json>) -> Option<String> {
    match node {
        Some(Json::Text(s)) => Some(s.iter().collect()),
        _ => None,
    }
}

#[test]
fn a_document_is_held_as_a_tree() {
    match tree(r#"{"b": [null, true, 1.5, -2, "x"], "a": {}}"#) {
        Json::Object(members) => {
            assert_eq!(members.len(), 2);
            assert_eq!(members[0].0, chars("a"));
            assert!(matches!(&members[0].1, Json::Object(m) if m.is_empty()));
            assert_eq!(members[1].0, chars("b"));
            match &members[1].1 {
                Json::Array(items) => {
                    assert_eq!(items.len(), 5);
                    assert!(matches!(items[0], Json::Null));
                    assert!(matches!(items[1], Json::Bool(true)));
                    assert!(matches!(&items[2], Json::Number(n) if *n == chars("1.5")));
                    assert!(matches!(&items[3], Json::Number(n) if *n == chars("-2")));
                    assert!(matches!(&items[4], Json::Text(s) if *s == chars("x")));
                }
                other => panic!("held as {:?}", other),
            }
        }
        other => panic!("held as {:?}", other),
    }
}

#[test]
fn texts_are_taken_and_compared_by_character() {
    assert_eq!(chars_of("a/é~"), vec!['a', '/', 'é', '~']);
    assert_eq!(chars_of(""), Vec::<char>::new());
    assert!(same_text(&chars("abc"), &chars("abc")));
    assert!(same_text(&chars(""), &chars("")));
    assert!(!same_text(&chars("abc"), &chars("abd")));
    assert!(!same_text(&chars("abc"), &chars("ab")));
}

#[test]
fn members_are_found_by_name() {
    let node = tree(r#"{"type": "object", "$ref": "there", "n": 1}"#);
    assert_eq!(text_of(get_member(&node, "$ref")), Some("there".to_string()));
    assert_eq!(text_of(get_member(&node, "type")), Some("object".to_string()));
    assert!(matches!(get_member(&node, "n"), Some(Json::Number(_))));
    assert!(get_member(&node, "ref").is_none());
    assert!(get_member(&node, "").is_none());
    assert!(get_member(&tree("[1]"), "0").is_none());

    let members = vec![
        (chars("a"), Json::Text(chars("first"))),
        (chars("b"), Json::Null),
        (chars("a"), Json::Text(chars("second"))),
    ];
    assert_eq!(text_of(find_member(&members, &chars("a"))), Some("first".to_string()));
    assert!(matches!(find_member(&members, &chars("b")), Some(Json::Null)));
    assert!(find_member(&members, &chars("c")).is_none());
    assert!(find_member(&Vec::new(), &chars("a")).is_none());
}

#[test]
fn pointer_tokens_are_unescaped_in_two_passes() {
    assert_eq!(replace(&chars("a~1b"), '1', '/'), chars("a/b"));
    assert_eq!(replace(&chars("~1~1"), '1', '/'), chars("//"));
    assert_eq!(replace(&chars("~01"), '1', '/'), chars("~01"));
    assert_eq!(replace(&chars("~01"), '0', '~'), chars("~1"));
    assert_eq!(replace(&chars("~~1"), '1', '/'), chars("~/"));
    assert_eq!(replace(&chars("a~"), '1', '/'), chars("a~"));
    assert_eq!(replace(&chars(""), '1', '/'), chars(""));
    for token in ["a~1b~0c", "~01", "~~10", "~0~1", "~", "~2", "~1~0~01"] {
        let ours: String =
            replace(&replace(&chars(token), '1', '/'), '0', '~').into_iter().collect();
        assert_eq!(ours, token.replace("~1", "/").replace("~0", "~"), "{:?}", token);
    }
}

#[test]
fn an_index_is_written_without_sign_or_leading_zero() {
    assert_eq!(index_of(&chars("0"), 3), Some(0));
    assert_eq!(index_of(&chars("2"), 3), Some(2));
    assert_eq!(index_of(&chars("12"), 13), Some(12));
    assert_eq!(index_of(&chars("3"), 3), None);
    assert_eq!(index_of(&chars("0"), 0), None);
    for other in ["", "+1", "-1", "01", "00", "1a", "a", " 1", "１", "99999999999999999999999"] {
        assert_eq!(index_of(&chars(other), 1000), None, "{:?}", other);
    }
    assert_eq!(index_of(&chars("18446744073709551614"), usize::MAX), Some(usize::MAX - 1));
    assert_eq!(index_of(&chars("18446744073709551615"), usize::MAX), None);
}

#[test]
fn a_pointer_leads_through_objects_and_arrays() {
    let root = tree(
        r#"{"a": {"b": [10, {"c": "deep"}]}, "": "empty", "x/y": "slash", "m~n": "tilde", "0": "zero"}"#,
    );
    assert!(matches!(follow_pointer(&root, &chars("")), Some(Json::Object(_))));
    assert_eq!(text_of(follow_pointer(&root, &chars("/a/b/1/c"))), Some("deep".to_string()));
    assert!(matches!(follow_pointer(&root, &chars("/a/b/0")), Some(Json::Number(_))));
    assert_eq!(text_of(follow_pointer(&root, &chars("/"))), Some("empty".to_string()));
    assert_eq!(text_of(follow_pointer(&root, &chars("/x~1y"))), Some("slash".to_string()));
    assert_eq!(text_of(follow_pointer(&root, &chars("/m~0n"))), Some("tilde".to_string()));
    assert_eq!(text_of(follow_pointer(&root, &chars("/0"))), Some("zero".to_string()));
    for nowhere in ["a", "/b", "/a/b/2", "/a/b/01", "/a/b/-", "/a/b/1/c/d", "/a/", "//", "/x/y"] {
        assert!(follow_pointer(&root, &chars(nowhere)).is_none(), "{:?}", nowhere);
    }
    let items = tree("[[1, 2], []]");
    assert!(matches!(follow_pointer(&items, &chars("/0/1")), Some(Json::Number(_))));
    assert!(follow_pointer(&items, &chars("/1/0")).is_none());
    assert!(matches!(part_of(&items, &chars("1")), Some(Json::Array(_))));
    assert!(part_of(&items, &chars("2")).is_none());
    assert!(part_of(&tree("1"), &chars("0")).is_none());
}

#[test]
fn a_reference_is_plain_where_it_needs_no_decoding() {
    assert_eq!(fragment_of(&chars("#")), Some(chars("")));
    assert_eq!(fragment_of(&chars("#/definitions/a")), Some(chars("/definitions/a")));
    assert_eq!(fragment_of(&chars("#/é/~0/x#y")), Some(chars("/é/~0/x#y")));
    assert_eq!(fragment_of(&chars("#anchor")), Some(chars("anchor")));
    for other in ["", "a", "/a", "a#/b", "#/a b", "#/a%20b", "#/a\tb", "#/a\n", " #/a", "#/a "] {
        assert_eq!(fragment_of(&chars(other)), None, "{:?}", other);
    }
}

#[test]
fn marks_are_found_at_every_depth() {
    let node = tree(
        r##"{"a": [1, {"b": {"$id": "x", "$ref": "#/a"}}], "c": {"$ref": "other.json"}, "d": {"$ref": 5, "$id": 6}}"##,
    );
    assert!(finds(&node, Mark::Reference));
    assert!(finds(&node, Mark::Unclear));
    assert!(finds(&node, Mark::Named));
    assert!(!has_mark(&node, Mark::Reference));
    let c = get_member(&node, "c").unwrap();
    assert!(has_mark(c, Mark::Reference) && has_mark(c, Mark::Unclear) && !has_mark(c, Mark::Named));
    let d = get_member(&node, "d").unwrap();
    assert!(!finds(d, Mark::Reference) && !finds(d, Mark::Unclear) && !finds(d, Mark::Named));
    let plain = tree(r##"{"$ref": "#/a"}"##);
    assert!(has_mark(&plain, Mark::Reference) && !has_mark(&plain, Mark::Unclear));
    assert!(!finds(&tree("[1, \"$ref\"]"), Mark::Reference));
}

#[test]
fn the_next_schemas_of_a_schema() {
    let root = tree(
        r##"{
          "allOf": [{"title": "a"}, {"title": "b"}],
          "anyOf": [{"title": "c"}],
          "oneOf": [],
          "not": {"title": "d"},
          "if": {"title": "e"}, "then": {"title": "f"}, "else": {"title": "g"},
          "dependencies": {"x": ["y"], "z": {"title": "h"}, "w": true},
          "properties": {"p": {"title": "no"}},
          "items": {"title": "no"},
          "definitions": {"r": {"$ref": "#/not", "allOf": [{"title": "no"}]}, "s": {"then": {"title": "no"}}, "t": {"$ref": "#/nowhere"}, "u": {"$ref": 5, "not": {}}}
        }"##,
    );
    let titles = |node: &Json| -> Vec<String> {
        next_of(&root, node)
            .iter()
            .map(|n| text_of(get_member(n, "title")).unwrap_or_else(|| format!("{:?}", n)))
            .collect()
    };
    assert_eq!(titles(&root), ["a", "b", "c", "d", "e", "f", "g", "Bool(true)", "h"]);
    let definitions = get_member(&root, "definitions").unwrap();
    assert_eq!(titles(get_member(definitions, "r").unwrap()), ["d"]);
    assert!(titles(get_member(definitions, "s").unwrap()).is_empty());
    assert!(titles(get_member(definitions, "t").unwrap()).is_empty());
    assert!(titles(get_member(definitions, "u").unwrap()).is_empty());
    assert!(next_of(&root, &Json::Null).is_empty());
}

#[test]
fn objects_are_counted() {
    assert_eq!(count_objects(&tree("1")), 0);
    assert_eq!(count_objects(&tree("[]")), 0);
    assert_eq!(count_objects(&tree("{}")), 1);
    assert_eq!(count_objects(&tree(r#"{"a": {}, "b": [{}, [{}], 1], "c": {"d": {}}}"#)), 6);
}

#[test]
fn a_chain_takes_one_of_the_bound_for_each_schema() {
    let root = tree(
        r##"{"$ref": "#/definitions/a", "definitions": {"a": {"allOf": [{"$ref": "#/definitions/b"}]}, "b": {"type": "number"}}}"##,
    );
    assert!(!ends(&root, &root, 0));
    assert!(!ends(&root, &root, 2));
    assert!(ends(&root, &root, 3));
    assert!(ends(&root, &root, 1000));
    let b = follow_pointer(&root, &chars("/definitions/b")).unwrap();
    assert!(ends(&root, b, 0));
    assert!(all_end(&root, &root, 3));
    assert!(!all_end(&root, &root, 2));
    assert!(check_references(&root));
}

#[test]
fn a_document_without_references_settles() {
    for text in [
        "{}",
        "true",
        "[1, 2]",
        r#"{"type": "object", "properties": {"t": {}}}"#,
        r#"{"$id": "http://example.com/s.json#", "properties": {"t": {"$id": "t.json"}}}"#,
        r#"{"$ref": 5}"#,
    ] {
        assert!(check_references(&tree(text)), "{}", text);
    }
}

#[test]
fn a_loop_never_settles() {
    let root = tree(r##"{"definitions": {"a": {"$ref": "#/definitions/a"}}}"##);
    let a = follow_pointer(&root, &chars("/definitions/a")).unwrap();
    for fuel in [0, 1, 2, 16, 255] {
        assert!(!ends(&root, a, fuel));
    }
    assert!(ends(&root, &root, 0));
    assert!(!check_references(&root));
    assert!(!check_references(&tree(r##"{"$ref": "#"}"##)));
    assert!(!check_references(&tree(r##"{"allOf": [{"$ref": "#"}]}"##)));
    assert!(!check_references(&tree(r##"{"not": {"not": {"$ref": "#/not"}}}"##)));
}

#[test]
fn a_step_into_the_reading_breaks_a_chain() {
    for text in [
        r##"{"properties": {"next": {"$ref": "#"}}}"##,
        r##"{"items": {"$ref": "#"}}"##,
        r##"{"additionalProperties": {"$ref": "#"}}"##,
        r##"{"definitions": {"a": {"properties": {"b": {"$ref": "#/definitions/a"}}}}, "$ref": "#/definitions/a"}"##,
        r##"{"then": {"$ref": "#"}}"##,
        r##"{"dependencies": {"x": [{"$ref": "#"}]}}"##,
    ] {
        assert!(check_references(&tree(text)), "{}", text);
    }
}

#[test]
fn names_of_parts_are_clear_at_the_root_only() {
    assert!(check_ids(&tree(r#"{"$id": "http://example.com/s.json"}"#)));
    assert!(check_ids(&tree(r#"{"a": {"$id": 5}}"#)));
    assert!(!check_ids(&tree(r#"{"$id": "http://example.com/s.json#"}"#)));
    assert!(!check_ids(&tree(r#"{"a": [{"$id": "x"}]}"#)));
    assert!(!check_ids(&tree(r#"[{"$id": "x"}]"#)));
    let plain = r##""properties": {"t": {"$ref": "#/definitions/a"}}, "definitions": {"a": {}}"##;
    assert!(check_references(&tree(&format!("{{{}}}", plain))));
    assert!(check_references(&tree(&format!(r#"{{"$id": "http://example.com/s", {}}}"#, plain))));
    assert!(!check_references(&tree(&format!(r#"{{"$id": "http://example.com/s#", {}}}"#, plain))));
    assert!(!check_references(&tree(&format!(r#"{{"x": {{"$id": "y"}}, {}}}"#, plain))));
}
