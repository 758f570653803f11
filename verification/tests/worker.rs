use twitch_tts::irc::IrcMessage;
use twitch_tts::queue::{Dequeued, DispatchQueue};
use twitch_tts::worker::{
    convert_audio, decimal_string, keep_marked, plan_speech, play_audio, raw_file_name,
    safe_file_stem, wav_file_name, SpeechJob, ToolCommand, WorkerStep, FILE_STEM_LIMIT,
};

fn command(program: &str, args: &[&str]) -> ToolCommand {
    ToolCommand {
        program: program.to_string(),
        args: args.iter().map(|arg| arg.to_string()).collect(),
    }
}

#[test]
fn the_stem_keeps_alphanumeric_characters_only() {
    assert_eq!(safe_file_stem("sky_preacherman"), "skypreacherman");
    assert_eq!(safe_file_stem("../../etc/passwd"), "etcpasswd");
    assert_eq!(safe_file_stem("a b\tc!d@e#f"), "abcdef");
    assert_eq!(safe_file_stem("_-_"), "");
    assert_eq!(safe_file_stem(""), "");
    assert_eq!(safe_file_stem("Bob42"), "Bob42");
}

#[test]
fn the_stem_keeps_letters_and_digits_outside_ascii() {
    assert_eq!(safe_file_stem("b\u{f6}b_\u{663}\u{1f600}\u{4e2d}"), "b\u{f6}b\u{663}\u{4e2d}");
}

#[test]
fn the_stem_agrees_with_the_standard_library_filter() {
    let names = ["sky_preacherman", "x", "a-b-c-d-e-f-g-h-i-j-k-l-m-n-o-p-q-r-s-t-u-v-w", "\u{2167}\u{bd}~"];
    for name in names {
        let expected: String = name.chars().filter(|c| c.is_alphanumeric()).take(20).collect();
        assert_eq!(safe_file_stem(name), expected);
    }
}

#[test]
fn the_stem_is_cut_at_the_limit() {
    assert_eq!(FILE_STEM_LIMIT, 20);
    assert_eq!(safe_file_stem("abcdefghijklmnopqrstuvwxyz"), "abcdefghijklmnopqrst");
    assert_eq!(safe_file_stem("abcdefghijklmnopqrst"), "abcdefghijklmnopqrst");
    assert_eq!(safe_file_stem("a_b_c_d_e_f_g_h_i_j_k_l_m_n_o_p_q_r_s_t_u_v"), "abcdefghijklmnopqrst");
}

#[test]
fn keep_marked_takes_the_marked_characters_up_to_the_limit() {
    assert_eq!(keep_marked("abcd", &vec![true, false, true, true], 10), "acd");
    assert_eq!(keep_marked("abcd", &vec![true, false, true, true], 2), "ac");
    assert_eq!(keep_marked("abcd", &vec![true, false, true, true], 0), "");
    assert_eq!(keep_marked("abcd", &vec![false, false, false, false], 3), "");
    assert_eq!(keep_marked("abcd", &vec![true, true], 10), "ab");
    assert_eq!(keep_marked("ab", &vec![true, true, true, true], 10), "ab");
    assert_eq!(keep_marked("", &vec![], 10), "");
}

#[test]
fn numbers_are_written_in_base_ten() {
    assert_eq!(decimal_string(0), "0");
    assert_eq!(decimal_string(7), "7");
    assert_eq!(decimal_string(10), "10");
    assert_eq!(decimal_string(1234567890), "1234567890");
    assert_eq!(decimal_string(1700000000123), "1700000000123");
    assert_eq!(decimal_string(u128::MAX), "340282366920938463463374607431768211455");
    let mut n: u128 = 1;
    while n < u128::MAX / 7 {
        assert_eq!(decimal_string(n), n.to_string());
        n = n * 7 + 3;
    }
}

#[test]
fn file_names_are_made_of_stem_and_timestamp() {
    assert_eq!(raw_file_name("bob", 1700000000123), "bob_1700000000123.raw");
    assert_eq!(wav_file_name("bob", 1700000000123), "bob_1700000000123.wav");
    assert_eq!(raw_file_name("sky_preacherman", 0), "skypreacherman_0.raw");
    assert_eq!(wav_file_name("!!!", 5), "_5.wav");
}

#[test]
fn the_same_sender_at_the_same_time_gets_the_same_names() {
    assert_eq!(raw_file_name("bob", 42), raw_file_name("bob", 42));
    assert_eq!(raw_file_name("b_o_b", 42), raw_file_name("bob", 42));
    assert_ne!(raw_file_name("bob", 42), raw_file_name("bob", 43));
}

#[test]
fn a_job_holds_the_text_and_both_files() {
    let message = IrcMessage {
        sender: "bob".to_string(),
        channel: "#demo".to_string(),
        message: "hello world".to_string(),
    };
    assert_eq!(
        plan_speech(&message, 99),
        SpeechJob {
            text: "hello world".to_string(),
            raw_file: "bob_99.raw".to_string(),
            wav_file: "bob_99.wav".to_string(),
        }
    );
}

#[test]
fn the_conversion_is_called_with_its_fixed_arguments() {
    let command = convert_audio("bob_99.raw", "bob_99.wav");
    assert_eq!(command.program, "ffmpeg");
    assert_eq!(
        command.args,
        vec![
            "-f", "f32le", "-ar", "22050", "-ac", "1", "-i", "bob_99.raw", "-c:a", "pcm_s16le",
            "-y", "bob_99.wav"
        ]
    );
}

#[test]
fn the_player_is_called_with_its_fixed_arguments() {
    let command = play_audio("bob_99.wav");
    assert_eq!(command.program, "ffplay");
    assert_eq!(command.args, vec!["-nodisp", "-autoexit", "bob_99.wav"]);
}

#[test]
fn a_job_speaks_converts_plays_and_cleans_up() {
    let job = SpeechJob {
        text: "hello world".to_string(),
        raw_file: "bob_99.raw".to_string(),
        wav_file: "bob_99.wav".to_string(),
    };
    assert_eq!(
        job.steps(),
        vec![
            WorkerStep::Synthesize {
                text: "hello world".to_string(),
                raw_file: "bob_99.raw".to_string(),
            },
            WorkerStep::Run(command(
                "ffmpeg",
                &[
                    "-f", "f32le", "-ar", "22050", "-ac", "1", "-i", "bob_99.raw", "-c:a",
                    "pcm_s16le", "-y", "bob_99.wav",
                ],
            )),
            WorkerStep::Run(command("ffplay", &["-nodisp", "-autoexit", "bob_99.wav"])),
            WorkerStep::Remove("bob_99.raw".to_string()),
            WorkerStep::Remove("bob_99.wav".to_string()),
        ]
    );
}

#[test]
fn jobs_are_taken_up_in_the_order_of_arrival() {
    let mut queue = DispatchQueue::new();
    for sender in ["a", "b"] {
        let message = IrcMessage {
            sender: sender.to_string(),
            channel: "#demo".to_string(),
            message: format!("from {}", sender),
        };
        assert_eq!(queue.enqueue(message), Ok(()));
    }
    queue.close();
    let mut done = Vec::new();
    let mut timestamp = 1000;
    loop {
        match queue.dequeue() {
            Dequeued::Event(message) => {
                for step in plan_speech(&message, timestamp).steps() {
                    done.push(match step {
                        WorkerStep::Synthesize { text, raw_file } => {
                            format!("speak {} into {}", text, raw_file)
                        }
                        WorkerStep::Run(command) => {
                            format!("{} {}", command.program, command.args.join(" "))
                        }
                        WorkerStep::Remove(file) => format!("remove {}", file),
                    });
                }
                timestamp += 1;
            }
            Dequeued::Empty => panic!("a closed queue is never just empty"),
            Dequeued::Closed => break,
        }
    }
    assert_eq!(
        done,
        vec![
            "speak from a into a_1000.raw",
            "ffmpeg -f f32le -ar 22050 -ac 1 -i a_1000.raw -c:a pcm_s16le -y a_1000.wav",
            "ffplay -nodisp -autoexit a_1000.wav",
            "remove a_1000.raw",
            "remove a_1000.wav",
            "speak from b into b_1001.raw",
            "ffmpeg -f f32le -ar 22050 -ac 1 -i b_1001.raw -c:a pcm_s16le -y b_1001.wav",
            "ffplay -nodisp -autoexit b_1001.wav",
            "remove b_1001.raw",
            "remove b_1001.wav",
        ]
    );
}
