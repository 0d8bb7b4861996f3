use pandora_toolchain::codec::{escape, unescape};
use pandora_toolchain::frame::{Data, Schema, TypeC};
use pandora_toolchain::protocol::Protocol;

#[test]
fn roundtrip_plain() {
    let s = "hello world";
    assert_eq!(unescape(&escape(s)), s);
}

#[test]
fn roundtrip_colon() {
    let s = "key:value";
    let e = escape(s);
    assert!(!e.contains(':'), "escaped colon must not remain: {}", e);
    assert_eq!(unescape(&e), s);
}

#[test]
fn roundtrip_slash() {
    let s = "path/to/thing";
    let e = escape(s);
    assert!(!e.contains('/'));
    assert_eq!(unescape(&e), s);
}

#[test]
fn roundtrip_percent() {
    let s = "100%done";
    let e = escape(s);
    assert!(!e.contains('%'));
    assert_eq!(unescape(&e), s);
}

#[test]
fn roundtrip_question() {
    let s = "what?ever";
    assert_eq!(unescape(&escape(s)), s);
}

#[test]
fn roundtrip_question_token_like() {
    // A value that already looks like one of the tokens.
    let s = "?PNcolon?";
    assert_eq!(unescape(&escape(s)), s);
}

#[test]
fn roundtrip_all_special() {
    let s = "a:b/c%d?e?f:g";
    assert_eq!(unescape(&escape(s)), s);
}

#[test]
fn roundtrip_multiple_questions() {
    let s = "??::??";
    assert_eq!(unescape(&escape(s)), s);
}

#[test]
fn roundtrip_empty() {
    assert_eq!(unescape(&escape("")), "");
}

#[test]
fn roundtrip_question_at_start_and_end() {
    let s = "?hello?";
    assert_eq!(unescape(&escape(s)), s);
}

#[test]
fn roundtrip_only_questions() {
    let s = "????";
    assert_eq!(unescape(&escape(s)), s);
}

#[test]
fn protocol_roundtrip_with_special_chars() {
    let mut proto = Protocol::new(vec![3]);
    proto.negotiate("PNprotocol:PNprotocol@0.57@3:PNmpeg@0.11@3:ABC").unwrap();

    let schema = Schema::Multi(vec![Schema::Leaf, Schema::Leaf]);
    let raw_a = "hello:world";
    let raw_b = "path/to/100%?done?";
    let data = TypeC::Multi(vec![
        TypeC::Single(Data { value: raw_a.to_string() }),
        TypeC::Single(Data { value: raw_b.to_string() }),
    ]);

    let built = proto.build_info_string("ABC", &schema, &data).unwrap();

    // The payload contains exactly one structural `:` separator between
    // the two leaves. Split on it and verify neither leaf-token contains
    // a bare delimiter (i.e. all special chars in the raw values are escaped).
    let payload = built.splitn(2, ':').nth(1).unwrap();
    let leaf_tokens: Vec<&str> = payload.splitn(2, ':').collect();
    assert_eq!(leaf_tokens.len(), 2, "expected exactly one structural separator");
    for token in &leaf_tokens {
        assert!(!token.contains(':'), "bare colon in leaf token: {}", token);
        assert!(!token.contains('/'), "bare slash in leaf token: {}", token);
        assert!(!token.contains('%'), "bare percent in leaf token: {}", token);
    }

    let parsed = proto.extract_data(&built).unwrap();
    if let TypeC::Multi(ref items) = parsed {
        assert_eq!(items.len(), 2);
        if let TypeC::Single(ref d) = items[0] { assert_eq!(d.value, raw_a); }
        else { panic!("expected Single for items[0]"); }
        if let TypeC::Single(ref d) = items[1] { assert_eq!(d.value, raw_b); }
        else { panic!("expected Single for items[1]"); }
    } else {
        panic!("expected Multi at top level");
    }
}

#[test]
fn escape_gives_the_token_of_each_special_character() {
    assert_eq!(escape(":"), "?PNcolon?");
    assert_eq!(escape("/"), "?PNslash?");
    assert_eq!(escape("%"), "?PNpercent?");
    assert_eq!(escape("?"), "?PNquestion?");
    assert_eq!(escape("a:b?"), "a?PNcolon?b?PNquestion?");
    assert_eq!(escape("héllo"), "héllo");
}

#[test]
fn unescape_keeps_text_that_forms_no_token() {
    assert_eq!(unescape("?PN"), "?PN");
    assert_eq!(unescape("plain"), "plain");
    assert_eq!(unescape("?PNcolon"), "?PNcolon");
    assert_eq!(unescape("?PNcolon??PNslash??PNpercent??PNquestion?"), ":/%?");
}

#[test]
fn a_delimiter_before_the_letters_of_the_question_token_comes_back() {
    let raw = ":PNquestion?";
    let escaped = escape(raw);
    assert_eq!(escaped, "?PNcolon?PNquestion?PNquestion?");
    assert_eq!(unescape(&escaped), raw);
    assert_eq!(unescape(&escape(":PNquestion?x")), ":PNquestion?x");
    assert_eq!(unescape(&escape("/PNquestion%")), "/PNquestion%");
}

#[test]
fn unescape_reads_each_token_where_it_starts() {
    // What stands between the marks of a broken token is kept; the token
    // that starts inside it is read.
    assert_eq!(unescape("?PNco?PNquestion?lon?"), "?PNco?lon?");
    assert_eq!(unescape("??PNcolon?"), "?:");
    assert_eq!(unescape("?PNcolon?PNcolon?"), ":PNcolon?");
    assert_eq!(unescape("?PNquestion"), "?PNquestion");
    assert_eq!(unescape(""), "");
}

#[test]
fn nested_frame_reads_back() {
    let mut proto = Protocol::new(vec![1]);
    proto.negotiate("PNprotocol:A@1@1:B@1@1:ABC").unwrap();
    let schema = Schema::Multi(vec![
        Schema::Leaf,
        Schema::Multi(vec![Schema::Leaf, Schema::Leaf]),
    ]);
    let data = TypeC::Multi(vec![
        TypeC::Single(Data { value: "hello:world".to_string() }),
        TypeC::Multi(vec![
            TypeC::Single(Data { value: "path/to/100%?done?".to_string() }),
            TypeC::Single(Data { value: "42".to_string() }),
        ]),
    ]);
    let built = proto.build_info_string("ABC", &schema, &data).unwrap();
    assert_eq!(
        built,
        "ABC:hello?PNcolon?world:path?PNslash?to?PNslash?100?PNpercent??PNquestion?done?PNquestion?/42"
    );
    let parts: Vec<&str> = built.split(':').collect();
    assert_eq!(parts.len(), 3);
    assert!(!parts[1].contains('/') && !parts[1].contains('%'));
    let parsed = proto.extract_data(&built).unwrap();
    match parsed {
        TypeC::Multi(items) => {
            assert_eq!(items.len(), 2);
            match &items[0] {
                TypeC::Single(d) => assert_eq!(d.value, "hello:world"),
                TypeC::Multi(_) => panic!("expected a leaf"),
            }
            match &items[1] {
                TypeC::Multi(inner) => {
                    assert_eq!(inner.len(), 2);
                    match (&inner[0], &inner[1]) {
                        (TypeC::Single(a), TypeC::Single(b)) => {
                            assert_eq!(a.value, "path/to/100%?done?");
                            assert_eq!(b.value, "42");
                        }
                        _ => panic!("expected two leaves"),
                    }
                }
                TypeC::Single(_) => panic!("expected a node"),
            }
        }
        TypeC::Single(_) => panic!("expected a node"),
    }
}

#[test]
fn a_node_of_one_child_reads_back_as_a_leaf() {
    let mut proto = Protocol::new(vec![1]);
    proto.negotiate("PNprotocol:A@1@1:B@1@1:K").unwrap();
    let schema = Schema::Multi(vec![Schema::Leaf]);
    let data = TypeC::Multi(vec![TypeC::Single(Data { value: "x".to_string() })]);
    let built = proto.build_info_string("K", &schema, &data).unwrap();
    assert_eq!(built, "K:x");
    match proto.extract_data(&built).unwrap() {
        TypeC::Single(d) => assert_eq!(d.value, "x"),
        TypeC::Multi(_) => panic!("expected a leaf"),
    }
}

#[test]
fn text_without_the_top_delimiter_is_read_one_level_down() {
    let mut proto = Protocol::new(vec![1]);
    proto.negotiate("PNprotocol:A@1@1:B@1@1:K").unwrap();
    match proto.extract_data("K:a/b%c").unwrap() {
        TypeC::Multi(items) => {
            assert_eq!(items.len(), 2);
            match &items[0] {
                TypeC::Single(d) => assert_eq!(d.value, "a"),
                TypeC::Multi(_) => panic!("expected a leaf"),
            }
            match &items[1] {
                TypeC::Multi(inner) => assert_eq!(inner.len(), 2),
                TypeC::Single(_) => panic!("expected a node"),
            }
        }
        TypeC::Single(_) => panic!("expected a node"),
    }
}

#[test]
fn every_value_comes_back() {
    let pieces = [":", "/", "%", "?", "PNquestion", "PNcolon", "a", "P", "é"];
    let mut checked = 0;
    for a in pieces {
        for b in pieces {
            for c in pieces {
                for d in pieces {
                    let s = format!("{}{}{}{}", a, b, c, d);
                    assert_eq!(unescape(&escape(&s)), s);
                    checked += 1;
                }
            }
        }
    }
    assert_eq!(checked, 6561);
}

#[test]
fn a_frame_with_any_leaves_reads_back() {
    let mut proto = Protocol::new(vec![1]);
    proto.negotiate("PNprotocol:A@1@1:B@1@1:K").unwrap();
    let schema = Schema::Multi(vec![Schema::Leaf, Schema::Leaf]);
    let first = ":PNquestion?";
    let data = TypeC::Multi(vec![
        TypeC::Single(Data { value: first.to_string() }),
        TypeC::Single(Data { value: "%PNquestion/".to_string() }),
    ]);
    let built = proto.build_info_string("K", &schema, &data).unwrap();
    match proto.extract_data(&built).unwrap() {
        TypeC::Multi(items) => match (&items[0], &items[1]) {
            (TypeC::Single(a), TypeC::Single(b)) => {
                assert_eq!(a.value, first);
                assert_eq!(b.value, "%PNquestion/");
            }
            _ => panic!("expected two leaves"),
        },
        TypeC::Single(_) => panic!("expected a node"),
    }
}
