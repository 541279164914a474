use emulator::command::{
    complete, load_argument, load_command, parse_command, read_byte, select_input_command,
    Command, Completion, Interrupt,
};

#[test]
fn an_empty_line_steps() {
    assert_eq!(parse_command(""), Command::Step);
    assert_eq!(parse_command("  \t "), Command::Step);
}

#[test]
fn plain_commands() {
    assert_eq!(parse_command("exit"), Command::Exit);
    assert_eq!(parse_command("quit"), Command::Exit);
    assert_eq!(parse_command("  reload "), Command::Reload);
    assert_eq!(parse_command("help"), Command::Help);
    assert_eq!(parse_command("clear"), Command::Clear);
    assert_eq!(parse_command("ram"), Command::ShowRam);
    assert_eq!(parse_command("program"), Command::ShowProgram);
    assert_eq!(parse_command("programs"), Command::Unknown);
    assert_eq!(parse_command("exit now"), Command::Unknown);
    assert_eq!(parse_command("load"), Command::Unknown);
    assert_eq!(parse_command("trigger"), Command::Unknown);
}

#[test]
fn load_resolves_the_path_as_one_argument() {
    assert_eq!(parse_command("load mult.2i"), Command::Load("mult.2i".to_string()));
    assert_eq!(parse_command("  load   mult.2i  "), Command::Load("mult.2i".to_string()));
    assert_eq!(parse_command("load 'my program.2i'"), Command::Load("my program.2i".to_string()));
    assert_eq!(parse_command("load my\\ program.2i"), Command::Load("my program.2i".to_string()));
    assert_eq!(parse_command("load a b"), Command::Load("a b".to_string()));
}

#[test]
fn interrupts_are_triggered_by_name() {
    assert_eq!(parse_command("trigger INTA"), Command::Trigger(Interrupt::Volatile));
    assert_eq!(parse_command("trigger INTB"), Command::Trigger(Interrupt::Stored));
    assert_eq!(parse_command("trigger INTC"), Command::UnknownInterrupt("INTC".to_string()));
    assert_eq!(parse_command("trigger  INTA"), Command::UnknownInterrupt(" INTA".to_string()));
    assert_eq!(parse_command("trigger inta"), Command::UnknownInterrupt("inta".to_string()));
}

#[test]
fn input_registers_are_set_in_binary() {
    assert_eq!(parse_command("FC = 11010"), Command::SetInput(0, 0b11010));
    assert_eq!(parse_command("FD = 0"), Command::SetInput(1, 0));
    assert_eq!(parse_command("FE   =\t11111111"), Command::SetInput(2, 255));
    assert_eq!(parse_command(" FF = 00000001 "), Command::SetInput(3, 1));
    assert_eq!(parse_command("FB = 1"), Command::Unknown);
    assert_eq!(parse_command("FC=1"), Command::Unknown);
    assert_eq!(parse_command("FC = 111111111"), Command::Unknown);
    assert_eq!(parse_command("FC = 12"), Command::Unknown);
    assert_eq!(parse_command("fc = 1"), Command::Unknown);
}

#[test]
fn capture_groups_become_commands() {
    let group = |text: &str| Some(text.to_string());
    let found = |index: &str, value: &str| {
        Some(vec![Some(format!("{} = {}", index, value)), group(index), group(value)])
    };
    assert_eq!(select_input_command(&found("FE", "101")), Command::SetInput(2, 5));
    assert_eq!(select_input_command(&found("FF", "100000000")), Command::InvalidValue);
    assert_eq!(select_input_command(&found("FF", "")), Command::InvalidValue);
    assert_eq!(select_input_command(&found("FF", "1a")), Command::InvalidValue);
    assert_eq!(select_input_command(&found("FA", "1")), Command::Unknown);
    assert_eq!(select_input_command(&None), Command::Unknown);
    assert_eq!(select_input_command(&Some(vec![group("FC = 1"), group("FC")])), Command::Unknown);
    assert_eq!(
        select_input_command(&Some(vec![group("FC = 1"), group("FC"), None])),
        Command::Unknown
    );
}

#[test]
fn bytes_in_binary() {
    assert_eq!(read_byte("0"), Some(0));
    assert_eq!(read_byte("11111111"), Some(255));
    assert_eq!(read_byte("0000000011111111"), Some(255));
    assert_eq!(read_byte("100000000"), None);
    assert_eq!(read_byte("1111111111111111111111111111111111"), None);
    assert_eq!(read_byte(""), None);
    assert_eq!(read_byte("2"), None);
    assert_eq!(read_byte("+1"), None);
}

#[test]
fn commands_are_completed() {
    assert_eq!(complete("e", 1), Completion::Commands(vec!["exit"]));
    assert_eq!(complete("re", 2), Completion::Commands(vec!["reload"]));
    assert_eq!(complete("F", 1), Completion::Commands(vec!["FC = ", "FD = ", "FE = ", "FF = "]));
    assert_eq!(complete("trigger", 7), Completion::Commands(vec!["trigger INTA", "trigger INTB"]));
    assert_eq!(complete("l", 1), Completion::Commands(vec!["load "]));
    assert_eq!(complete("exit", 4), Completion::Commands(vec![]));
    assert_eq!(complete("x", 1), Completion::Commands(vec![]));
    assert_eq!(complete("", 0).eq(&Completion::Path), false);
    match complete("", 0) {
        Completion::Commands(names) => assert_eq!(names.len(), 14),
        Completion::Path => panic!("an empty line loads nothing"),
    }
}

#[test]
fn paths_are_completed_after_load() {
    assert_eq!(complete("load ", 5), Completion::Path);
    assert_eq!(complete("load pro", 8), Completion::Path);
    assert_eq!(complete("load pro", 6), Completion::Path);
    // the cursor stands inside the command
    assert_eq!(complete("load pro", 3), Completion::Commands(vec![]));
    assert_eq!(complete("rel", 1), Completion::Commands(vec![]));
}

#[test]
fn the_argument_of_load_is_cut_out_as_typed() {
    assert_eq!(load_argument("load mult.2i"), Some("mult.2i".to_string()));
    assert_eq!(load_argument("  load   'my program.2i'  "), Some("'my program.2i'".to_string()));
    assert_eq!(load_argument("load my\\ program.2i"), Some("my\\ program.2i".to_string()));
    assert_eq!(load_argument("load \u{a0} x"), Some("x".to_string()));
    assert_eq!(load_argument("load"), None);
    assert_eq!(load_argument("load "), None);
    assert_eq!(load_argument("loader x"), None);
    assert_eq!(load_argument("reload"), None);
    assert_eq!(load_argument(""), None);
    assert_eq!(load_command("a b".to_string()), Command::Load("a b".to_string()));
}
