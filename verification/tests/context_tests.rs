use sabi::app::{sort_sessions, Session};
use sabi::cli::{cli_command, help_text, version_text, CliCommand};
use sabi::config::{api_key_prompt, chosen_model, provider_choice, Provider};
use sabi::context::{os_pretty_name, system_context, system_prompt};
use sabi::gemini::SYSTEM_PROMPT;

fn args(list: &[&str]) -> Vec<String> {
    list.iter().map(|a| a.to_string()).collect()
}

#[test]
fn test_cli_command() {
    assert_eq!(cli_command(&args(&["sabi"])), CliCommand::Run { safe: false });
    assert_eq!(cli_command(&args(&["sabi", "--safe"])), CliCommand::Run { safe: true });
    assert_eq!(cli_command(&args(&["sabi", "--safe", "-v"])), CliCommand::Version);
    assert_eq!(cli_command(&args(&["sabi", "--version"])), CliCommand::Version);
    assert_eq!(cli_command(&args(&["sabi", "-v", "--help"])), CliCommand::Help);
    assert_eq!(cli_command(&args(&["sabi", "-h"])), CliCommand::Help);
    assert_eq!(cli_command(&args(&["sabi", "--Safe", "-hv"])), CliCommand::Run { safe: false });
    assert_eq!(cli_command(&Vec::new()), CliCommand::Run { safe: false });
}

#[test]
fn test_help_and_version_texts() {
    assert_eq!(
        help_text(),
        "sabi - AI-powered terminal assistant\n\nUsage: sabi [OPTIONS]\n\nOptions:\n  --safe           Safe mode: show commands but don't execute\n  --version, -v    Show version\n  --help, -h       Show this help message\n"
    );
    assert_eq!(version_text("1.2.3"), "sabi 1.2.3");
}

#[test]
fn test_system_context_text() {
    assert_eq!(
        system_context("2024-01-02 03:04:05 UTC", "ada", "/bin/zsh", "/home/ada", "Linux", "Debian 12"),
        "SYSTEM CONTEXT:\n- Current time: 2024-01-02 03:04:05 UTC\n- User: ada\n- Shell: /bin/zsh\n- Working directory: /home/ada\n- OS: Linux Debian 12"
    );
    assert_eq!(
        system_context("", "", "", "", "", ""),
        "SYSTEM CONTEXT:\n- Current time: \n- User: \n- Shell: \n- Working directory: \n- OS:  "
    );
}

#[test]
fn test_system_prompt_text() {
    assert_eq!(system_prompt(false, "CTX"), format!("{}\n\nCTX", SYSTEM_PROMPT));
    assert_eq!(
        system_prompt(true, "CTX"),
        format!(
            "{}\n\n5. Run Python code:\n   {{\"tool\": \"run_python\", \"code\": \"<python code>\"}}\n\nEXAMPLE:\n- \"calculate 2^100\" → {{\"tool\": \"run_python\", \"code\": \"print(2**100)\"}}\n\nCTX",
            SYSTEM_PROMPT
        )
    );
}

fn lines(text: &str) -> Vec<String> {
    text.lines().map(|l| l.to_string()).collect()
}

#[test]
fn test_os_pretty_name() {
    let release = "NAME=\"Debian GNU/Linux\"\nPRETTY_NAME=\"Debian GNU/Linux 12 (bookworm)\"\nID=debian\nPRETTY_NAME=\"second\"";
    assert_eq!(os_pretty_name(&lines(release)), Some("Debian GNU/Linux 12 (bookworm)".to_string()));
    assert_eq!(os_pretty_name(&lines("PRETTY_NAME=Plain")), Some("Plain".to_string()));
    assert_eq!(os_pretty_name(&lines("PRETTY_NAME=\"\"\"odd\"\"")), Some("odd".to_string()));
    assert_eq!(os_pretty_name(&lines("PRETTY_NAME=PRETTY_NAME=\"x\"")), Some("x".to_string()));
    assert_eq!(os_pretty_name(&lines("PRETTY_NAME=")), Some(String::new()));
    assert_eq!(os_pretty_name(&lines("PRETTY_NAME=\"")), Some(String::new()));
    assert_eq!(os_pretty_name(&lines("PRETTY_NAME=a\"b")), Some("a\"b".to_string()));
    assert_eq!(os_pretty_name(&lines(" PRETTY_NAME=x\nNAME=y")), None);
    assert_eq!(os_pretty_name(&lines("")), None);
    for text in ["PRETTY_NAME=\"\"\"odd\"\"", "PRETTY_NAME=PRETTY_NAME=\"x\"", "PRETTY_NAME=\"a\""] {
        let expected = text.trim_start_matches("PRETTY_NAME=").trim_matches('"').to_string();
        assert_eq!(os_pretty_name(&lines(text)), Some(expected));
    }
}

#[test]
fn test_onboarding_choices() {
    let gemini = provider_choice("1");
    assert_eq!(gemini.provider, Provider::Gemini);
    assert!(!gemini.custom_endpoint);
    assert_eq!(gemini.default_model, "gemini-2.5-flash");
    assert_eq!(provider_choice(""), gemini);
    assert_eq!(provider_choice("anything"), gemini);
    let openai = provider_choice("2");
    assert_eq!(openai.provider, Provider::OpenAI);
    assert!(!openai.custom_endpoint);
    assert_eq!(openai.default_model, "gpt-4o-mini");
    let custom = provider_choice("3");
    assert_eq!(custom.provider, Provider::OpenAI);
    assert!(custom.custom_endpoint);
    assert_eq!(custom.default_model, "");
    assert_eq!(
        api_key_prompt(Provider::Gemini, false),
        "Gemini API key (https://aistudio.google.com/apikey): "
    );
    assert_eq!(
        api_key_prompt(Provider::Gemini, true),
        "Gemini API key (https://aistudio.google.com/apikey): "
    );
    assert_eq!(api_key_prompt(Provider::OpenAI, true), "API key (leave empty if not required): ");
    assert_eq!(api_key_prompt(Provider::OpenAI, false), "OpenAI API key: ");
    assert_eq!(chosen_model("", "default".to_string()), "default");
    assert_eq!(chosen_model("mine", "default".to_string()), "mine");
}

fn stamped(id: &str, timestamp: &str) -> Session {
    let mut session = Session::new("/");
    session.id = id.to_string();
    session.timestamp = timestamp.to_string();
    session
}

#[test]
fn test_sort_sessions_latest_first_and_stable() {
    let sessions = vec![
        stamped("a", "2024-01-01T10:00:00+00:00"),
        stamped("b", "2024-03-01T10:00:00+00:00"),
        stamped("c", "2023-12-31T23:59:59+00:00"),
        stamped("d", "2024-03-01T10:00:00+00:00"),
        stamped("e", "2024-03-01T10:00:00+00:00Z"),
        stamped("f", ""),
        stamped("g", "2024-03-01T10:00:00+00:0é"),
    ];
    let mut expected: Vec<(String, String)> =
        sessions.iter().map(|s| (s.id.clone(), s.timestamp.clone())).collect();
    expected.sort_by(|a, b| b.1.cmp(&a.1));
    let sorted = sort_sessions(sessions);
    let got: Vec<(String, String)> =
        sorted.iter().map(|s| (s.id.clone(), s.timestamp.clone())).collect();
    assert_eq!(got, expected);
    let ids: Vec<&str> = sorted.iter().map(|s| s.id.as_str()).collect();
    assert_eq!(ids, vec!["g", "e", "b", "d", "a", "c", "f"]);
    assert!(sort_sessions(Vec::new()).is_empty());
}
