use chat_relay::client::{
    file_save_path, image_file_name, image_file_name_at, on_read_failure,
};
use chat_relay::text::{join_from, split_first};
use chat_relay::{
    client_usage, generate_message, get_hostname, interpret_line, on_message, AppError, Command,
    CommandParseError, Incoming, IoErrorKind, LineAction, MessageType,
};
use std::str::FromStr;

#[test]
fn text_command_makes_text_messagetype() {
    let test_parts = vec!["this", "is", "a", "test"];
    let test_cmd = Command::Text;
    let base_msg = MessageType::Text(None, "this is a test".to_string());

    let generated_msg = generate_message(test_cmd, test_parts, None).unwrap();

    assert_eq!(base_msg, generated_msg);
}

#[test]
fn text_command_does_not_make_register_messagetype() {
    let test_parts = vec![".register", "Timothy"];
    let test_cmd = Command::Text;
    let base_msg = MessageType::Register("Timothy".to_string());

    let generated_msg = generate_message(test_cmd, test_parts, None).unwrap();

    assert_ne!(base_msg, generated_msg);
}

#[test]
fn register_command_makes_register_messagetype() {
    let test_parts = vec![".register", "Timothy"];
    let test_cmd = Command::Register;
    let base_msg = MessageType::Register("Timothy".to_string());

    let generated_msg = generate_message(test_cmd, test_parts, None).unwrap();

    assert_eq!(base_msg, generated_msg);
}

#[test]
fn register_command_does_not_make_text_messagetype() {
    let test_parts = vec![".register", "Timothy"];
    let test_cmd = Command::Register;
    let base_msg = MessageType::Text(None, "Timothy".to_string());

    let generated_msg = generate_message(test_cmd, test_parts, None).unwrap();

    assert_ne!(base_msg, generated_msg);
}

#[test]
fn register_sends_all_parts_but_the_first() {
    let made = generate_message(Command::Register, vec![".register", "Tim", "the", "Red"], None);
    assert_eq!(made.unwrap(), MessageType::Register("Tim the Red".to_string()));
    let made = generate_message(Command::Register, vec![".register"], None);
    assert_eq!(made.unwrap(), MessageType::Register(String::new()));
    let made = generate_message(Command::Register, vec![], None);
    assert_eq!(made.unwrap(), MessageType::Register(String::new()));
}

#[test]
fn text_of_no_parts_is_empty() {
    let made = generate_message(Command::Text, vec![], None);
    assert_eq!(made.unwrap(), MessageType::Text(None, String::new()));
    let made = generate_message(Command::Text, vec!["one"], None);
    assert_eq!(made.unwrap(), MessageType::Text(None, "one".to_string()));
}

#[test]
fn file_command_sends_the_contents_under_the_last_component() {
    let made = generate_message(Command::File, vec![".file", "some/dir/notes.txt"], Some(vec![1, 2]));
    assert_eq!(made.unwrap(), MessageType::File(None, "notes.txt".to_string(), vec![1, 2]));
    let made = generate_message(Command::File, vec![".file", "notes.txt"], Some(vec![]));
    assert_eq!(made.unwrap(), MessageType::File(None, "notes.txt".to_string(), vec![]));
}

#[test]
fn image_command_sends_the_contents() {
    let made = generate_message(Command::Image, vec![".image", "pic.png"], Some(vec![9, 8]));
    assert_eq!(made.unwrap(), MessageType::Image(None, vec![9, 8]));
}

fn refused(made: Result<MessageType, AppError>, why: &str) {
    assert_eq!(made, Err(AppError::Message(why.to_string())));
}

#[test]
fn file_command_without_a_path_is_refused() {
    refused(generate_message(Command::File, vec![".file"], Some(vec![1])), "Missing file path.");
    refused(generate_message(Command::File, vec![".file"], None), "Missing file path.");
}

#[test]
fn file_that_could_not_be_read_is_refused() {
    refused(generate_message(Command::File, vec![".file", "a.txt"], None), "Failed to read file.");
}

#[test]
fn path_without_a_last_component_is_refused() {
    refused(
        generate_message(Command::File, vec![".file", ".."], Some(vec![1])),
        "Failed to get file name",
    );
    refused(
        generate_message(Command::File, vec![".file", "/"], Some(vec![1])),
        "Failed to get file name",
    );
}

#[test]
fn image_command_without_a_path_is_refused() {
    refused(generate_message(Command::Image, vec![".image"], Some(vec![1])), "Missing image path.");
}

#[test]
fn image_that_could_not_be_read_is_refused() {
    refused(generate_message(Command::Image, vec![".image", "a.png"], None), "Failed to read image.");
}

#[test]
fn words_with_a_dot_are_commands() {
    assert_eq!(Command::parse(".file"), Command::File);
    assert_eq!(Command::parse(".help"), Command::Help);
    assert_eq!(Command::parse(".image"), Command::Image);
    assert_eq!(Command::parse(".register"), Command::Register);
    assert_eq!(Command::parse(".quit"), Command::Quit);
}

#[test]
fn every_other_word_is_text() {
    for word in ["", "hello", ".File", ".quit ", "file", ".", ".helpme", " .help"] {
        assert_eq!(Command::parse(word), Command::Text);
    }
}

#[test]
fn from_str_never_fails() {
    assert_eq!(Command::from_str(".quit").unwrap(), Command::Quit);
    assert_eq!(Command::from_str("anything").unwrap(), Command::Text);
    assert_eq!(".image".parse::<Command>().unwrap(), Command::Image);
}

#[test]
fn parse_error_is_reported_in_words() {
    assert_eq!(CommandParseError {}.to_string(), "Problem parsing command input.");
}

#[test]
fn line_falls_into_word_and_rest() {
    let line = interpret_line("  .file some path.txt \n");
    assert_eq!(line.command, Command::File);
    assert_eq!(line.word, ".file");
    assert_eq!(line.rest, Some("some path.txt".to_string()));
    assert_eq!(line.parts(), vec![".file", "some path.txt"]);
    assert_eq!(line.action(), LineAction::Send);
}

#[test]
fn line_of_one_word_has_no_rest() {
    let line = interpret_line(".quit\n");
    assert_eq!(line.command, Command::Quit);
    assert_eq!(line.rest, None);
    assert_eq!(line.parts(), vec![".quit"]);
    assert_eq!(line.action(), LineAction::Quit);
    assert_eq!(interpret_line("\t.help ").action(), LineAction::Help);
}

#[test]
fn empty_line_is_passed_over() {
    for line in ["", "\n", "   ", "\t \r\n"] {
        let parsed = interpret_line(line);
        assert_eq!(parsed.command, Command::Text);
        assert_eq!(parsed.word, "");
        assert_eq!(parsed.rest, None);
        assert_eq!(parsed.action(), LineAction::Ignore);
    }
}

#[test]
fn typed_text_is_sent_as_typed() {
    let parsed = interpret_line("  hello  big   world \n");
    assert_eq!(parsed.command, Command::Text);
    assert_eq!(parsed.action(), LineAction::Send);
    assert_eq!(parsed.parts(), vec!["hello", " big   world"]);
    let made = generate_message(parsed.command, parsed.parts(), None).unwrap();
    assert_eq!(made, MessageType::Text(None, "hello  big   world".to_string()));
}

#[test]
fn typed_registration_names_the_account() {
    let parsed = interpret_line(".register Timothy Red\n");
    assert_eq!(parsed.action(), LineAction::Send);
    let made = generate_message(parsed.command, parsed.parts(), None).unwrap();
    assert_eq!(made, MessageType::Register("Timothy Red".to_string()));
}

#[test]
fn split_is_at_the_first_space_only() {
    assert_eq!(split_first("a b c"), ("a".to_string(), Some("b c".to_string())));
    assert_eq!(split_first("abc"), ("abc".to_string(), None));
    assert_eq!(split_first(""), (String::new(), None));
    assert_eq!(split_first(" x"), (String::new(), Some("x".to_string())));
    assert_eq!(split_first("x "), ("x".to_string(), Some(String::new())));
    assert_eq!(split_first("é ü"), ("é".to_string(), Some("ü".to_string())));
    assert_eq!(split_first("a\tb"), ("a\tb".to_string(), None));
}

#[test]
fn words_are_joined_by_single_spaces() {
    assert_eq!(join_from(&vec!["a", "b", "c"], 0), "a b c");
    assert_eq!(join_from(&vec!["a", "b", "c"], 1), "b c");
    assert_eq!(join_from(&vec!["a", "b", "c"], 2), "c");
    assert_eq!(join_from(&vec!["a", "b", "c"], 3), "");
    assert_eq!(join_from(&vec!["a", "b", "c"], 9), "");
    assert_eq!(join_from(&vec!["", ""], 0), " ");
    assert_eq!(join_from(&vec![], 0), "");
}

#[test]
fn usage_lists_the_commands() {
    let usage = client_usage();
    assert!(usage.starts_with("\n------------------------------ \nMessage broadcast options: \n"));
    for line in ["\t- <message> \n", "\t- .file <path> \n", "\t- .image <path> \n",
        "\t- .register <account name> \n", "\t- .help \n", "\t- .quit \n"]
    {
        assert!(usage.contains(line));
    }
    assert!(usage.ends_with("\n------------------------------"));
}

#[test]
fn incoming_file_is_saved_and_announced() {
    let message = MessageType::File(Some("bob".to_string()), "a.txt".to_string(), vec![1, 2]);
    match on_message(message) {
        Incoming::SaveFile { name, data, notice } => {
            assert_eq!(name, "a.txt");
            assert_eq!(data, vec![1, 2]);
            assert_eq!(notice, "[RECEIVED FILE from bob] Saving to..: a.txt");
        }
        _ => panic!("not saved as a file"),
    }
    match on_message(MessageType::File(None, "a.txt".to_string(), vec![])) {
        Incoming::SaveFile { notice, .. } => {
            assert_eq!(notice, "[RECEIVED FILE from anonymous] Saving to..: a.txt")
        }
        _ => panic!("not saved as a file"),
    }
}

#[test]
fn incoming_image_is_saved_and_announced() {
    match on_message(MessageType::Image(Some("bob".to_string()), vec![7])) {
        Incoming::SaveImage { data, notice } => {
            assert_eq!(data, vec![7]);
            assert_eq!(notice, "[RECEIVED IMAGE from bob]");
        }
        _ => panic!("not saved as an image"),
    }
    match on_message(MessageType::Image(None, vec![])) {
        Incoming::SaveImage { notice, .. } => assert_eq!(notice, "[RECEIVED IMAGE from Anonymous]"),
        _ => panic!("not saved as an image"),
    }
}

#[test]
fn incoming_text_and_registration_are_shown() {
    match on_message(MessageType::Text(Some("bob".to_string()), "hi".to_string())) {
        Incoming::Show { notice } => assert_eq!(notice, "[bob] hi"),
        _ => panic!("not shown"),
    }
    match on_message(MessageType::Text(None, "hi".to_string())) {
        Incoming::Show { notice } => assert_eq!(notice, "[Anonymous] hi"),
        _ => panic!("not shown"),
    }
    match on_message(MessageType::Register("al".to_string())) {
        Incoming::Show { notice } => assert_eq!(notice, "[NEW USER LOGGED IN] al"),
        _ => panic!("not shown"),
    }
}

#[test]
fn failed_read_ends_the_client_with_a_notice() {
    let said = |kind| on_read_failure(kind).unwrap();
    assert_eq!(said(IoErrorKind::UnexpectedEof), "Server disconnected. Shutting down...");
    assert_eq!(said(IoErrorKind::ConnectionReset), "Server at connection reset. Shutting down...");
    assert_eq!(
        said(IoErrorKind::BrokenPipe),
        "Server connection had broken pipe. Shutting down..."
    );
    assert_eq!(said(IoErrorKind::Other), "Unexpected error reading from server: other error");
}

#[test]
fn read_that_finds_nothing_ready_lets_the_client_go_on() {
    assert_eq!(on_read_failure(IoErrorKind::WouldBlock), None);
}

#[test]
fn image_is_saved_under_its_time() {
    assert_eq!(image_file_name_at("20240102030405"), "./images/20240102030405.png");
    assert_eq!(image_file_name_at(""), "./images/.png");
}

#[test]
fn image_that_comes_now_is_saved_under_fourteen_digits() {
    let name = image_file_name();
    let stamp = name.strip_prefix("./images/").unwrap().strip_suffix(".png").unwrap();
    assert_eq!(stamp.len(), 14);
    assert!(stamp.chars().all(|c| c.is_ascii_digit()));
}

#[test]
fn file_is_saved_below_files() {
    assert_eq!(file_save_path("a.txt"), "./files/a.txt");
    assert_eq!(file_save_path("dir/a.txt"), "./files/dir/a.txt");
}

#[test]
fn three_arguments_name_host_and_port() {
    let args = vec!["program".to_string(), "localhost".to_string(), "8080".to_string()];
    assert_eq!(get_hostname(args), "localhost:8080");
    let args = vec!["p".to_string(), "10.0.0.7".to_string(), "1".to_string()];
    assert_eq!(get_hostname(args), "10.0.0.7:1");
    let args = vec![String::new(), String::new(), String::new()];
    assert_eq!(get_hostname(args), ":");
}

#[test]
fn any_other_number_of_arguments_names_the_default() {
    assert_eq!(get_hostname(vec![]), "localhost:11111");
    assert_eq!(get_hostname(vec!["program".to_string()]), "localhost:11111");
    assert_eq!(get_hostname(vec!["p".to_string(), "host".to_string()]), "localhost:11111");
    let four = vec!["p".to_string(), "h".to_string(), "1".to_string(), "x".to_string()];
    assert_eq!(get_hostname(four), "localhost:11111");
}

#[test]
fn file_and_image_lines_name_the_file_to_read() {
    assert_eq!(interpret_line(".file a b.txt").file_to_read(), Some(&"a b.txt".to_string()));
    assert_eq!(interpret_line(".image pic.png\n").file_to_read(), Some(&"pic.png".to_string()));
    assert_eq!(interpret_line(".file").file_to_read(), None);
    assert_eq!(interpret_line(".register a.txt").file_to_read(), None);
    assert_eq!(interpret_line("hello a.txt").file_to_read(), None);
    assert_eq!(interpret_line(".quit now").file_to_read(), None);
}
