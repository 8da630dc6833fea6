use genesis2000::request::{
    dump_file_path, environment_variable, info_request, is_environment_end,
};
use genesis2000::session::{command_tag, frame_request, reply_arity, Command, AUX_REPLY_LINES};
use genesis2000::{add, Genesis, InfoParamType};

fn lines(v: &[&str]) -> Vec<String> {
    v.iter().map(|s| s.to_string()).collect()
}

/// Hands over reply lines one at a time while the session owes some.
fn answer(g: &mut Genesis, replies: &[&str]) {
    for r in replies {
        assert!(g.awaiting_reply());
        g.take_reply(r.to_string());
    }
    assert!(!g.awaiting_reply());
}

#[test]
fn it_works() {
    let result = add(2, 2);
    assert_eq!(result, 4);

    let mut f = Genesis::new();
    let req = f.com("units,type=mm");
    assert_eq!(req, "@%#%@COM units,type=mm\n");
    answer(&mut f, &["0", ""]);
    let req = f.com("get_affect_layer");
    assert_eq!(req, "@%#%@COM get_affect_layer\n");
    answer(&mut f, &["0", "top bot"]);
    assert_eq!(f.comans, "top bot");

    let params = vec![
        (InfoParamType::EntityType, String::from("matrix")),
        (InfoParamType::EntityPath, String::from("000/matrix")),
    ];
    let req = f.info(&params, "/g/share/tmp/info_csh.7");
    assert_eq!(
        req,
        "@%#%@COM info,out_file=/g/share/tmp/info_csh.7,write_mode=replace,units=mm,args=-t matrix -e 000/matrix      -m script\n"
    );
}

#[test]
fn fresh_session_is_empty() {
    let g = Genesis::new();
    assert_eq!(g.status, "");
    assert_eq!(g.readans, "");
    assert_eq!(g.comans, "");
    assert_eq!(g.mouseans, "");
    assert_eq!(g.pausans, "");
    assert!(!g.awaiting_reply());
    assert_eq!(g.get_info_single_value("x"), None);
    assert_eq!(g.get_info_array_value("x"), None);
}

#[test]
fn generic_command_fills_status_and_answers() {
    let mut g = Genesis::new();
    g.mouse("p pick");
    answer(&mut g, &["0", "r", "10 20"]);
    assert_eq!(g.mouseans, "10 20");
    g.com("get_work_layer");
    answer(&mut g, &["0", "top"]);
    assert_eq!(g.status, "0");
    assert_eq!(g.readans, "top");
    assert_eq!(g.comans, "top");
    assert_eq!(g.mouseans, "");
    assert_eq!(g.pausans, "");
}

#[test]
fn pause_takes_three_lines_and_leaves_the_fourth() {
    let mut g = Genesis::new();
    let req = g.pause("inspect the board");
    assert_eq!(req, "@%#%@PAUSE inspect the board\n");
    let queue = lines(&["0", "OK", "continue", "next"]);
    let used = g.take_replies(&queue);
    assert_eq!(used, 3);
    assert_eq!(g.status, "0");
    assert_eq!(g.readans, "OK");
    assert_eq!(g.pausans, "continue");
    assert!(!g.awaiting_reply());
    g.com("get_units");
    let rest = queue[used..].to_vec();
    assert_eq!(g.take_replies(&rest), 1);
    assert_eq!(g.status, "next");
    assert!(g.awaiting_reply());
}

#[test]
fn mouse_and_aux_answers() {
    let mut g = Genesis::new();
    g.mouse("r area");
    answer(&mut g, &["0", "x", "1 2 3 4"]);
    assert_eq!(g.mouseans, "1 2 3 4");
    assert_eq!(g.readans, "x");
    assert_eq!(g.pausans, "");
    g.aux("set_group");
    let mut replies = vec!["0", "grp"];
    if AUX_REPLY_LINES == 3 {
        replies.push("third");
    }
    answer(&mut g, &replies);
    assert_eq!(g.status, "0");
    assert_eq!(g.readans, "grp");
    assert_eq!(g.mouseans, "");
    assert_eq!(g.comans, if AUX_REPLY_LINES == 3 { "third" } else { "grp" });
}

#[test]
fn toggles_owe_no_reply() {
    let mut g = Genesis::new();
    g.com("x");
    answer(&mut g, &["1", "y"]);
    assert_eq!(g.von(), "@%#%@VON \n");
    assert!(!g.awaiting_reply());
    assert_eq!(g.status, "");
    assert_eq!(g.comans, "");
    assert_eq!(g.vof(), "@%#%@VOF \n");
    assert_eq!(g.su_on(), "@%#%@SU_ON \n");
    assert_eq!(g.su_off(), "@%#%@SU_OFF \n");
    assert_eq!(g.closedown(), "@%#%@CLOSEDOWN \n");
    assert_eq!(g.get_environment(), "@%#%@GETENVIRONMENT \n");
    assert_eq!(g.take_replies(&lines(&["stray"])), 0);
}

#[test]
fn reply_arity_table() {
    assert_eq!(reply_arity(Command::Pause), 3);
    assert_eq!(reply_arity(Command::Mouse), 3);
    assert_eq!(reply_arity(Command::Com), 2);
    assert_eq!(reply_arity(Command::Aux), AUX_REPLY_LINES);
    assert_eq!(reply_arity(Command::VerboseOn), 0);
    assert_eq!(reply_arity(Command::Closedown), 0);
    assert_eq!(command_tag(Command::SuppressOff), "SU_OFF");
    assert_eq!(frame_request(Command::Aux, "a b"), "@%#%@AUX a b\n");
}

#[test]
fn dump_end_to_end() {
    let mut g = Genesis::new();
    g.info(&Vec::new(), "/tmp/d");
    answer(&mut g, &["0", ""]);
    g.parse_info_file(&lines(&[
        "set gNUM_ROWS = '30'",
        "set gCOLcol = ('1' '2' '3')",
        "set gATTRname = ()",
    ]));
    assert_eq!(g.get_info_single_value("gNUM_ROWS"), Some(&"30".to_string()));
    assert_eq!(g.info_single_values().entries().len(), 1);
    assert_eq!(
        g.get_info_array_value("gCOLcol"),
        Some(&lines(&["1", "2", "3"]))
    );
    assert_eq!(g.get_info_array_value("gATTRname"), Some(&Vec::new()));
    assert_eq!(g.info_array_values().entries().len(), 2);
    assert_eq!(g.get_info_single_value("gCOLcol"), None);
}

#[test]
fn later_line_wins() {
    let mut g = Genesis::new();
    g.parse_info_file(&lines(&[
        "set a = '1'",
        "set l = ('x')",
        "# a comment",
        "set a = '2'",
        "set l = ('y' 'z')",
    ]));
    assert_eq!(g.get_info_single_value("a"), Some(&"2".to_string()));
    assert_eq!(g.info_single_values().entries().len(), 1);
    assert_eq!(g.get_info_array_value("l"), Some(&lines(&["y", "z"])));
}

#[test]
fn second_query_replaces_the_first() {
    let mut g = Genesis::new();
    g.info(&Vec::new(), "/tmp/a");
    answer(&mut g, &["0", ""]);
    g.parse_info_file(&lines(&["set onlyA = '1'", "set both = '1'", "set listA = ()"]));
    g.info(&Vec::new(), "/tmp/b");
    assert_eq!(g.get_info_single_value("onlyA"), None);
    answer(&mut g, &["0", ""]);
    g.parse_info_file(&lines(&["set both = '2'"]));
    assert_eq!(g.get_info_single_value("onlyA"), None);
    assert_eq!(g.get_info_array_value("listA"), None);
    assert_eq!(g.get_info_single_value("both"), Some(&"2".to_string()));
}

#[test]
fn info_payload_flags() {
    let params = vec![
        (InfoParamType::Units, String::from("inch")),
        (InfoParamType::Help, String::from("ignored")),
        (InfoParamType::DataType, String::from("EXISTS")),
        (InfoParamType::Parameters, String::from("p1")),
        (InfoParamType::SerialNumber, String::from("3")),
        (InfoParamType::Options, String::from("o")),
        (InfoParamType::EntityType, String::from("step")),
        (InfoParamType::EntityPath, String::from("job/old")),
        (InfoParamType::EntityPath, String::from("job/pcb")),
    ];
    assert_eq!(
        info_request(&params, "/f"),
        "info,out_file=/f,write_mode=replace,units=inch,args=-t step -e job/pcb -d EXISTS -p p1 -s 3 -o o -help -m script"
    );
    assert_eq!(
        info_request(&Vec::new(), "/f"),
        "info,out_file=/f,write_mode=replace,units=mm,args=       -m script"
    );
}

#[test]
fn dump_paths() {
    assert_eq!(dump_file_path("/opt/genesis", 1234), "/opt/genesis/share/tmp/info_csh.1234");
    assert_eq!(dump_file_path("", 0), "/share/tmp/info_csh.0");
    assert_eq!(dump_file_path("/g", 4294967295), "/g/share/tmp/info_csh.4294967295");
}

#[test]
fn environment_lines() {
    assert!(is_environment_end("END"));
    assert!(is_environment_end("END_OF_LIST"));
    assert!(!is_environment_end("EN"));
    assert!(!is_environment_end("GENESIS_DIR=/g"));
    assert_eq!(
        environment_variable("GENESIS_DIR=/opt/g"),
        Some(("GENESIS_DIR".to_string(), "/opt/g".to_string()))
    );
    assert_eq!(
        environment_variable("A=b=c"),
        Some(("A".to_string(), "b".to_string()))
    );
    assert_eq!(environment_variable("EMPTY="), Some(("EMPTY".to_string(), String::new())));
    assert_eq!(environment_variable("no equals"), None);
}
