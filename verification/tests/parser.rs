//! Unit tests for the two parsing tiers, the argument helper and the
//! executor traits.

use tasktrack::messages::{
    AnalysisSpecifier, Executable, GraphSpecifier, HighLevelMessage, Key, LowLevelMessage,
    Parseable, collect_args,
};
use tasktrack::Model;

fn strings(v: &[&str]) -> Vec<String> {
    v.iter().map(|s| s.to_string()).collect()
}

#[test]
fn parse_add_keeps_all_arguments() {
    match HighLevelMessage::parse_command("add alpha beta 5") {
        Some(HighLevelMessage::Add(args)) => assert_eq!(args, strings(&["alpha", "beta", "5"])),
        _ => panic!("expected an add command"),
    }
}

#[test]
fn parse_collapses_repeated_whitespace() {
    match HighLevelMessage::parse_command("  add \t alpha \n 5  ") {
        Some(HighLevelMessage::Add(args)) => assert_eq!(args, strings(&["alpha", "5"])),
        _ => panic!("expected an add command"),
    }
}

#[test]
fn parse_remove_and_complete() {
    assert!(matches!(
        HighLevelMessage::parse_command("remove a b"),
        Some(HighLevelMessage::Remove(_))
    ));
    assert!(matches!(
        HighLevelMessage::parse_command("complete a"),
        Some(HighLevelMessage::Complete(_))
    ));
}

#[test]
fn parse_graph_subcommands() {
    match HighLevelMessage::parse_command("graph bar x y") {
        Some(HighLevelMessage::Graph(GraphSpecifier::Bar(args))) => {
            assert_eq!(args, strings(&["x", "y"]))
        }
        _ => panic!("expected a bar graph command"),
    }
    assert!(matches!(
        HighLevelMessage::parse_command("graph line"),
        Some(HighLevelMessage::Graph(GraphSpecifier::Line(_)))
    ));
    assert!(matches!(
        HighLevelMessage::parse_command("graph scatter p"),
        Some(HighLevelMessage::Graph(GraphSpecifier::Scatter(_)))
    ));
    assert!(HighLevelMessage::parse_command("graph pie x").is_none());
}

#[test]
fn parse_analysis_subcommand() {
    match HighLevelMessage::parse_command("analysis pca") {
        Some(HighLevelMessage::Analysis(AnalysisSpecifier::PCA(args))) => {
            assert_eq!(args, Vec::<String>::new())
        }
        _ => panic!("expected an analysis command"),
    }
    assert!(HighLevelMessage::parse_command("analysis anova x").is_none());
}

#[test]
fn parse_rejects_short_or_unknown_lines() {
    assert!(HighLevelMessage::parse_command("").is_none());
    assert!(HighLevelMessage::parse_command("add").is_none());
    assert!(HighLevelMessage::parse_command("graph").is_none());
    assert!(HighLevelMessage::parse_command("   remove   ").is_none());
    assert!(HighLevelMessage::parse_command("foo bar").is_none());
    assert!(HighLevelMessage::parse_command("Add a 5").is_none());
}

#[test]
fn parse_trait_matches_parse_command() {
    let parsed = <HighLevelMessage as Parseable<String>>::parse(String::from("add a 2"));
    assert!(matches!(parsed, Some(HighLevelMessage::Add(_))));
}

#[test]
fn execute_trait_applies_command() {
    let mut m = Model::default();
    let cmd = <HighLevelMessage as Parseable<String>>::parse(String::from("add a 2")).unwrap();
    assert_eq!(cmd.execute(&mut m), Ok(()));
    assert!(m.tasks.find_index("a").is_some());
    let stub = <HighLevelMessage as Parseable<String>>::parse(String::from("graph bar a")).unwrap();
    assert_eq!(stub.execute(&mut m), Err("Not implemented yet"));
}

#[test]
fn points_value_edges() {
    let mut m = Model::default();
    let ok = |line: &str, m: &mut Model| {
        let cmd = HighLevelMessage::parse_command(line).unwrap();
        cmd.execute(m).is_ok()
    };
    assert!(ok("add a 255", &mut m));
    assert!(!ok("add a 256", &mut m));
    assert!(ok("add b +7", &mut m));
    assert!(m.tasks.find_index("b").is_some());
    assert_eq!(m.tasks.get(m.tasks.find_index("b").unwrap()).points, 7);
    assert!(ok("add c 007", &mut m));
    assert_eq!(m.tasks.get(m.tasks.find_index("c").unwrap()).points, 7);
    assert!(!ok("add d 5x", &mut m));
    assert!(!ok("add e +", &mut m));
    assert!(!ok("add f -1", &mut m));
    assert!(!ok("add g 2.5", &mut m));
}

#[test]
fn key_presses_map_to_messages() {
    assert!(matches!(
        LowLevelMessage::from_key(Key::Char('q')),
        Some(LowLevelMessage::Char('q'))
    ));
    assert!(matches!(
        LowLevelMessage::from_key(Key::Backspace),
        Some(LowLevelMessage::Delete)
    ));
    assert!(matches!(
        LowLevelMessage::from_key(Key::Enter),
        Some(LowLevelMessage::Push)
    ));
    assert!(matches!(
        LowLevelMessage::from_key(Key::Esc),
        Some(LowLevelMessage::Quit)
    ));
    assert!(LowLevelMessage::from_key(Key::Other).is_none());
    assert!(matches!(
        <LowLevelMessage as Parseable<Key>>::parse(Key::Char('z')),
        Some(LowLevelMessage::Char('z'))
    ));
}

#[test]
fn update_dispatches_all_message_kinds() {
    let mut m = Model::default();
    m.update(&LowLevelMessage::Char('h'));
    m.update(&LowLevelMessage::Char('i'));
    assert_eq!(m.input, "hi");
    m.update(&LowLevelMessage::Delete);
    assert_eq!(m.input, "h");
    m.update(&LowLevelMessage::Push);
    assert_eq!(m.input, "");
    assert_eq!(m.error, "Invalid Command");
    assert!(!m.exit);
    m.update(&LowLevelMessage::Quit);
    assert!(m.exit);
}

#[test]
fn collect_args_copies_tokens_in_order() {
    let borrowed: [&str; 3] = ["a", "bb", "c"];
    let owned = collect_args(&borrowed);
    assert_eq!(owned, strings(&["a", "bb", "c"]));
    let empty: [&str; 0] = [];
    assert_eq!(collect_args(&empty), Vec::<String>::new());
}
