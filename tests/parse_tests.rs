use genesis2000::Genesis;

#[test]
fn test_parse_single_value() {
    let arr = [
        ("set gNUM_ROWS = '30'", ("gNUM_ROWS", "30")),
        ("set gNUM_COLS = '5'  ", ("gNUM_COLS", "5")),
        ("set gNUM_LAYERS =   '4'", ("gNUM_LAYERS", "4")),
        ("set gNUM_STEPS='1'", ("gNUM_STEPS", "1")),
        ("set gNUM_COLS =      ", ("gNUM_COLS", "")),
        ("set gNUM_ROWS = 30     ", ("gNUM_ROWS", "30")),
    ];

    for (line, (k, v)) in &arr {
        let (k_, v_) = Genesis::parse_single_value(&String::from(*line)).unwrap();
        assert_eq!(k_, *k);
        assert_eq!(v_, *v);
    }
}

#[test]
fn test_parse_array_value() {
    let arr = [
        (
            "set gCOLcol       = ('1'    '2'     '3'     '4'     '5'    )",
            ("gCOLcol", vec!["1", "2", "3", "4", "5"]),
        ),
        (
            "set gCOLtype      = ('step' 'empty' 'empty' 'empty' 'empty')",
            ("gCOLtype", vec!["step", "empty", "empty", "empty", "empty"]),
        ),
        (
            "set gCOLstep_name = ('orig' ''      ''      ''      ''     )",
            ("gCOLstep_name", vec!["orig", "", "", "", ""]),
        ),
        ("set gATTRname = ()", ("gATTRname", Vec::<&str>::new())),
        ("set gATTRval  = ()", ("gATTRval", Vec::<&str>::new())),
    ];

    for (line, (k, v)) in &arr {
        let (k_, v_) = Genesis::parse_array_value(&String::from(*line)).unwrap();
        assert_eq!(k_, *k);
        assert_eq!(v_, *v);
    }
}

fn single(line: &str) -> Option<(String, String)> {
    Genesis::parse_single_value(&String::from(line))
}

fn array(line: &str) -> Option<(String, Vec<String>)> {
    Genesis::parse_array_value(&String::from(line))
}

fn pair(k: &str, v: &str) -> Option<(String, String)> {
    Some((k.to_string(), v.to_string()))
}

#[test]
fn scalar_forms_with_single_spaces() {
    assert_eq!(single("set NAME = 'V'"), pair("NAME", "V"));
    assert_eq!(single("set NAME = V"), pair("NAME", "V"));
    assert_eq!(single("set NAME ="), pair("NAME", ""));
    assert_eq!(array("set NAME = 'V'"), None);
    assert_eq!(array("set NAME = V"), None);
    assert_eq!(array("set NAME ="), None);
}

#[test]
fn quoted_scalar_runs_to_the_last_quote() {
    assert_eq!(single("set x = 'it's here'"), pair("x", "it's here"));
    assert_eq!(single("set x = 'a' 'b'  "), pair("x", "a' 'b"));
}

#[test]
fn quoted_scalar_edge_cases() {
    assert_eq!(single("set x = ''"), pair("x", ""));
    assert_eq!(single("set x = 'open"), pair("x", ""));
    assert_eq!(single("set x = abc'def"), pair("x", "abc"));
    assert_eq!(single("set x = 'a\nb'"), pair("x", ""));
}

#[test]
fn lines_that_are_no_assignment() {
    assert_eq!(single("echo hello"), None);
    assert_eq!(single("set = 'v'"), None);
    assert_eq!(single("setx = 'v'"), None);
    assert_eq!(single("set 9x = 'v'"), None);
    assert_eq!(single(""), None);
    assert_eq!(array("set x = 'v'"), None);
    assert_eq!(array("set x=('a' 'b')"), None);
    assert_eq!(array("set x = ('a' 'b'"), None);
}

#[test]
fn list_forms() {
    let abc: Vec<String> = vec!["a".to_string(), "b".to_string(), "c".to_string()];
    assert_eq!(array("set NAME = ('a' 'b' 'c')"), Some(("NAME".to_string(), abc)));
    assert_eq!(array("set NAME = ()"), Some(("NAME".to_string(), Vec::new())));
    assert_eq!(array("set NAME = ('')"), Some(("NAME".to_string(), vec![String::new()])));
    assert_eq!(array("set NAME = (anything)"), Some(("NAME".to_string(), Vec::new())));
    assert_eq!(
        array("set NAME = ('a b'\t'c')  tail"),
        Some(("NAME".to_string(), vec!["a b".to_string(), "c".to_string()]))
    );
}
