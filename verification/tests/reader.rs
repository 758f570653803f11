use twitch_tts::config::TwitchConfiguration;
use twitch_tts::irc::IrcMessage;
use twitch_tts::queue::{Dequeued, DispatchQueue};
use twitch_tts::reader::{login_lines, on_line, pong_reply, ReaderStep};

#[test]
fn the_session_opens_with_token_account_and_channel() {
    let config = TwitchConfiguration {
        oauth_token: "abc".to_string(),
        username: "bot".to_string(),
        channel: "foo".to_string(),
    };
    assert_eq!(login_lines(&config), vec!["PASS oauth:abc", "NICK bot", "JOIN #foo"]);
}

#[test]
fn empty_settings_still_give_three_commands() {
    let config = TwitchConfiguration {
        oauth_token: String::new(),
        username: String::new(),
        channel: String::new(),
    };
    assert_eq!(login_lines(&config), vec!["PASS oauth:", "NICK ", "JOIN #"]);
}

#[test]
fn a_keep_alive_is_answered_with_the_same_line() {
    assert_eq!(
        pong_reply("PING :tmi.twitch.tv\r\n"),
        Some("PONG :tmi.twitch.tv\r\n".to_string())
    );
    assert_eq!(pong_reply("PING"), Some("PONG".to_string()));
}

#[test]
fn every_keep_alive_keyword_in_the_line_is_replaced() {
    assert_eq!(pong_reply("PING PING :PINGPING"), Some("PONG PONG :PONGPONG".to_string()));
}

#[test]
fn a_line_that_does_not_start_with_the_keyword_gets_no_answer() {
    assert_eq!(pong_reply(" PING :tmi.twitch.tv"), None);
    assert_eq!(pong_reply(":bob!b@h PRIVMSG #demo :PING"), None);
    assert_eq!(pong_reply("PIN"), None);
    assert_eq!(pong_reply("ping"), None);
    assert_eq!(pong_reply(""), None);
}

#[test]
fn an_empty_read_means_disconnected() {
    assert_eq!(on_line(""), ReaderStep::Disconnected);
}

#[test]
fn a_blank_line_is_read_over() {
    assert_eq!(on_line("\r\n"), ReaderStep::Line { message: None, reply: None });
    assert_eq!(on_line("\n"), ReaderStep::Line { message: None, reply: None });
}

#[test]
fn a_chat_line_gives_a_message_and_no_answer() {
    let step = on_line(":bob!bob@bob.tmi.twitch.tv PRIVMSG #demo :hello world\r\n");
    let message = IrcMessage {
        sender: "bob".to_string(),
        channel: "#demo".to_string(),
        message: "hello world".to_string(),
    };
    assert_eq!(step, ReaderStep::Line { message: Some(message), reply: None });
}

#[test]
fn a_keep_alive_line_gives_an_answer_and_no_message() {
    let step = on_line("PING :tmi.twitch.tv\r\n");
    assert_eq!(
        step,
        ReaderStep::Line { message: None, reply: Some("PONG :tmi.twitch.tv\r\n".to_string()) }
    );
}

#[test]
fn a_keep_alive_line_that_holds_the_marker_gives_both() {
    let step = on_line("PING!x PRIVMSG #demo :hi\r\n");
    let message = IrcMessage {
        sender: "PING".to_string(),
        channel: "#demo".to_string(),
        message: "hi".to_string(),
    };
    assert_eq!(
        step,
        ReaderStep::Line {
            message: Some(message),
            reply: Some("PONG!x PRIVMSG #demo :hi\r\n".to_string()),
        }
    );
}

#[test]
fn a_line_without_a_message_leaves_the_queue_alone() {
    let mut queue = DispatchQueue::new();
    let lines = [
        ":bot!bot@bot.tmi.twitch.tv JOIN #demo\r\n",
        ":bob!bob@bob.tmi.twitch.tv PRIVMSG #demo :hello world\r\n",
        ":bot.tmi.twitch.tv 366 bot #demo :End of /NAMES list\r\n",
    ];
    for line in lines {
        if let ReaderStep::Line { message: Some(message), .. } = on_line(line) {
            assert_eq!(queue.enqueue(message), Ok(()));
        }
    }
    assert_eq!(queue.len(), 1);
    match queue.dequeue() {
        Dequeued::Event(message) => assert_eq!(message.message, "hello world"),
        other => panic!("expected an event, got {:?}", other),
    }
}
