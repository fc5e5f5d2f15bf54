use procdash::category::{categorize_process, category_at, ProcessCategory};

#[test]
fn case_insensitive_classification() {
    assert_eq!(categorize_process("Firefox"), ProcessCategory::Browser);
    assert_eq!(categorize_process("FIREFOX"), ProcessCategory::Browser);
    assert_eq!(categorize_process("firefox"), ProcessCategory::Browser);
}

#[test]
fn system_rule_group_wins_over_development() {
    // a name carrying both a System token and a Development token
    assert_eq!(categorize_process("dbus-docker-helper"), ProcessCategory::System);
    assert_eq!(categorize_process("docker"), ProcessCategory::Development);
}

#[test]
fn one_example_per_category() {
    assert_eq!(categorize_process("systemd-journald"), ProcessCategory::System);
    assert_eq!(categorize_process("chromium"), ProcessCategory::Browser);
    assert_eq!(categorize_process("cargo"), ProcessCategory::Development);
    assert_eq!(categorize_process("alacritty"), ProcessCategory::Terminal);
    assert_eq!(categorize_process("nvim"), ProcessCategory::Editor);
    assert_eq!(categorize_process("spotify"), ProcessCategory::Media);
    assert_eq!(categorize_process("mysqld"), ProcessCategory::Background);
    assert_eq!(categorize_process("some-program"), ProcessCategory::User);
}

#[test]
fn exact_match_rules() {
    assert_eq!(categorize_process("init"), ProcessCategory::System);
    assert_eq!(categorize_process("kthreadd"), ProcessCategory::System);
    assert_eq!(categorize_process("bash"), ProcessCategory::Terminal);
    assert_eq!(categorize_process("zsh"), ProcessCategory::Terminal);
    assert_eq!(categorize_process("sh"), ProcessCategory::Terminal);
    // exact shell names do not match as substrings
    assert_eq!(categorize_process("bashful"), ProcessCategory::User);
}

#[test]
fn prefix_rules() {
    assert_eq!(categorize_process("kworker/0:1"), ProcessCategory::System);
    assert_eq!(categorize_process("ksoftirqd/3"), ProcessCategory::System);
    assert_eq!(categorize_process("gvfs-udisks2-monitor"), ProcessCategory::Background);
    assert_eq!(categorize_process("gvfsx"), ProcessCategory::Background);
}

#[test]
fn network_manager_is_system() {
    assert_eq!(categorize_process("NetworkManager"), ProcessCategory::System);
}

#[test]
fn empty_name_falls_through_to_user() {
    assert_eq!(categorize_process(""), ProcessCategory::User);
}

#[test]
fn background_catch_alls() {
    assert_eq!(categorize_process("acpid"), ProcessCategory::Background);
    assert_eq!(categorize_process("my-daemon-x"), ProcessCategory::Background);
    assert_eq!(categorize_process("update-service-x"), ProcessCategory::Background);
}

#[test]
fn category_names() {
    assert_eq!(ProcessCategory::System.name(), "System");
    assert_eq!(ProcessCategory::Browser.name(), "Browser");
    assert_eq!(ProcessCategory::Development.name(), "Development");
    assert_eq!(ProcessCategory::Terminal.name(), "Terminal");
    assert_eq!(ProcessCategory::Editor.name(), "Editor");
    assert_eq!(ProcessCategory::Media.name(), "Media");
    assert_eq!(ProcessCategory::Background.name(), "Background");
    assert_eq!(ProcessCategory::User.name(), "User");
}

#[test]
fn grid_order_of_categories() {
    assert_eq!(category_at(0), ProcessCategory::System);
    assert_eq!(category_at(1), ProcessCategory::Browser);
    assert_eq!(category_at(2), ProcessCategory::Development);
    assert_eq!(category_at(3), ProcessCategory::Terminal);
    assert_eq!(category_at(4), ProcessCategory::Editor);
    assert_eq!(category_at(5), ProcessCategory::Media);
    assert_eq!(category_at(6), ProcessCategory::Background);
    assert_eq!(category_at(7), ProcessCategory::User);
}
