//! The process categorizer: a pure, total function from a process name to
//! exactly one of eight fixed categories, by case-insensitive token
//! matching against ordered rule groups where the first match wins.

use vstd::prelude::*;

use crate::text::{
    chars_of, contains_chars, contains_seq, ends_with_chars, ends_with_seq, eq_chars,
    lower_chars, lower_seq, starts_with_chars, starts_with_seq,
};

verus! {

/// The eight fixed process categories, in their grid display order.
#[derive(Clone, Copy, PartialEq, Eq, Hash, Structural, Debug)]
pub enum ProcessCategory {
    System,
    Browser,
    Development,
    Terminal,
    Editor,
    Media,
    Background,
    User,
}

impl ProcessCategory {
    /// Display name of the category.
    pub open spec fn spec_name(self) -> Seq<char> {
        match self {
            ProcessCategory::System => "System"@,
            ProcessCategory::Browser => "Browser"@,
            ProcessCategory::Development => "Development"@,
            ProcessCategory::Terminal => "Terminal"@,
            ProcessCategory::Editor => "Editor"@,
            ProcessCategory::Media => "Media"@,
            ProcessCategory::Background => "Background"@,
            ProcessCategory::User => "User"@,
        }
    }

    pub fn name(&self) -> (r: &'static str)
        ensures
            r@ == self.spec_name(),
    {
        match self {
            ProcessCategory::System => "System",
            ProcessCategory::Browser => "Browser",
            ProcessCategory::Development => "Development",
            ProcessCategory::Terminal => "Terminal",
            ProcessCategory::Editor => "Editor",
            ProcessCategory::Media => "Media",
            ProcessCategory::Background => "Background",
            ProcessCategory::User => "User",
        }
    }
}

/// The fixed grid ordering of the eight categories: index = row * 2 + column
/// in the 4-row, 2-column category grid.
pub open spec fn spec_category_at(i: int) -> ProcessCategory {
    if i == 0 {
        ProcessCategory::System
    } else if i == 1 {
        ProcessCategory::Browser
    } else if i == 2 {
        ProcessCategory::Development
    } else if i == 3 {
        ProcessCategory::Terminal
    } else if i == 4 {
        ProcessCategory::Editor
    } else if i == 5 {
        ProcessCategory::Media
    } else if i == 6 {
        ProcessCategory::Background
    } else {
        ProcessCategory::User
    }
}

/// The category shown at a grid index.
pub fn category_at(i: usize) -> (c: ProcessCategory)
    requires
        i < 8,
    ensures
        c == spec_category_at(i as int),
{
    if i == 0 {
        ProcessCategory::System
    } else if i == 1 {
        ProcessCategory::Browser
    } else if i == 2 {
        ProcessCategory::Development
    } else if i == 3 {
        ProcessCategory::Terminal
    } else if i == 4 {
        ProcessCategory::Editor
    } else if i == 5 {
        ProcessCategory::Media
    } else if i == 6 {
        ProcessCategory::Background
    } else {
        ProcessCategory::User
    }
}

/// First rule group: kernel, init and system daemon names.
pub open spec fn matches_system(l: Seq<char>) -> bool {
    ||| contains_seq(l, "systemd"@)
    ||| contains_seq(l, "kernel"@)
    ||| starts_with_seq(l, "kworker"@)
    ||| starts_with_seq(l, "ksoftirqd"@)
    ||| starts_with_seq(l, "migration"@)
    ||| starts_with_seq(l, "rcu"@)
    ||| starts_with_seq(l, "watchdog"@)
    ||| contains_seq(l, "dbus"@)
    ||| contains_seq(l, "udev"@)
    ||| contains_seq(l, "polkit"@)
    ||| contains_seq(l, "networkmanager"@)
    ||| contains_seq(l, "bluetooth"@)
    ||| l == "init"@
    ||| l == "kthreadd"@
}

/// Second rule group: browser names.
pub open spec fn matches_browser(l: Seq<char>) -> bool {
    ||| contains_seq(l, "firefox"@)
    ||| contains_seq(l, "chrome"@)
    ||| contains_seq(l, "chromium"@)
    ||| contains_seq(l, "brave"@)
    ||| contains_seq(l, "edge"@)
    ||| contains_seq(l, "safari"@)
    ||| contains_seq(l, "opera"@)
    ||| contains_seq(l, "vivaldi"@)
}

/// Third rule group: development tools, toolchains and container runtimes.
pub open spec fn matches_development(l: Seq<char>) -> bool {
    ||| contains_seq(l, "rust"@)
    ||| contains_seq(l, "cargo"@)
    ||| contains_seq(l, "rustc"@)
    ||| contains_seq(l, "gcc"@)
    ||| contains_seq(l, "g++"@)
    ||| contains_seq(l, "clang"@)
    ||| contains_seq(l, "python"@)
    ||| contains_seq(l, "node"@)
    ||| contains_seq(l, "npm"@)
    ||| contains_seq(l, "yarn"@)
    ||| contains_seq(l, "java"@)
    ||| contains_seq(l, "mvn"@)
    ||| contains_seq(l, "gradle"@)
    ||| contains_seq(l, "docker"@)
    ||| contains_seq(l, "podman"@)
    ||| contains_seq(l, "git"@)
}

/// Fourth rule group: terminal emulators and common shells.
pub open spec fn matches_terminal(l: Seq<char>) -> bool {
    ||| contains_seq(l, "terminal"@)
    ||| contains_seq(l, "konsole"@)
    ||| contains_seq(l, "gnome-terminal"@)
    ||| contains_seq(l, "xterm"@)
    ||| contains_seq(l, "alacritty"@)
    ||| contains_seq(l, "kitty"@)
    ||| contains_seq(l, "wezterm"@)
    ||| contains_seq(l, "terminator"@)
    ||| l == "bash"@
    ||| l == "zsh"@
    ||| l == "fish"@
    ||| l == "sh"@
}

/// Fifth rule group: editors and IDEs.
pub open spec fn matches_editor(l: Seq<char>) -> bool {
    ||| contains_seq(l, "vim"@)
    ||| contains_seq(l, "nvim"@)
    ||| contains_seq(l, "neovim"@)
    ||| contains_seq(l, "emacs"@)
    ||| contains_seq(l, "code"@)
    ||| contains_seq(l, "vscode"@)
    ||| contains_seq(l, "sublime"@)
    ||| contains_seq(l, "atom"@)
    ||| contains_seq(l, "nano"@)
    ||| contains_seq(l, "gedit"@)
    ||| contains_seq(l, "kate"@)
}

/// Sixth rule group: media players and the audio stack.
pub open spec fn matches_media(l: Seq<char>) -> bool {
    ||| contains_seq(l, "vlc"@)
    ||| contains_seq(l, "mpv"@)
    ||| contains_seq(l, "spotify"@)
    ||| contains_seq(l, "rhythmbox"@)
    ||| contains_seq(l, "totem"@)
    ||| contains_seq(l, "ffmpeg"@)
    ||| contains_seq(l, "pulseaudio"@)
    ||| contains_seq(l, "pipewire"@)
    ||| contains_seq(l, "alsa"@)
}

/// Seventh rule group: background daemons and services.
pub open spec fn matches_background(l: Seq<char>) -> bool {
    ||| ends_with_seq(l, "d"@)
    ||| contains_seq(l, "daemon"@)
    ||| contains_seq(l, "service"@)
    ||| starts_with_seq(l, "gvfs"@)
}

/// The category of a process name: the rule groups are tried in their fixed
/// order on the case-folded name, the first match wins, and a name that
/// matches no group falls through to `User`.
pub open spec fn spec_categorize(name: Seq<char>) -> ProcessCategory {
    let l = lower_seq(name);
    if matches_system(l) {
        ProcessCategory::System
    } else if matches_browser(l) {
        ProcessCategory::Browser
    } else if matches_development(l) {
        ProcessCategory::Development
    } else if matches_terminal(l) {
        ProcessCategory::Terminal
    } else if matches_editor(l) {
        ProcessCategory::Editor
    } else if matches_media(l) {
        ProcessCategory::Media
    } else if matches_background(l) {
        ProcessCategory::Background
    } else {
        ProcessCategory::User
    }
}

fn matches_system_exec(l: &Vec<char>) -> (r: bool)
    ensures
        r == matches_system(l@),
{
    contains_chars(l, &chars_of("systemd")) || contains_chars(l, &chars_of("kernel"))
        || starts_with_chars(l, &chars_of("kworker")) || starts_with_chars(
        l,
        &chars_of("ksoftirqd"),
    ) || starts_with_chars(l, &chars_of("migration")) || starts_with_chars(l, &chars_of("rcu"))
        || starts_with_chars(l, &chars_of("watchdog")) || contains_chars(l, &chars_of("dbus"))
        || contains_chars(l, &chars_of("udev")) || contains_chars(l, &chars_of("polkit"))
        || contains_chars(l, &chars_of("networkmanager")) || contains_chars(
        l,
        &chars_of("bluetooth"),
    ) || eq_chars(l, &chars_of("init")) || eq_chars(l, &chars_of("kthreadd"))
}

fn matches_browser_exec(l: &Vec<char>) -> (r: bool)
    ensures
        r == matches_browser(l@),
{
    contains_chars(l, &chars_of("firefox")) || contains_chars(l, &chars_of("chrome"))
        || contains_chars(l, &chars_of("chromium")) || contains_chars(l, &chars_of("brave"))
        || contains_chars(l, &chars_of("edge")) || contains_chars(l, &chars_of("safari"))
        || contains_chars(l, &chars_of("opera")) || contains_chars(l, &chars_of("vivaldi"))
}

fn matches_development_exec(l: &Vec<char>) -> (r: bool)
    ensures
        r == matches_development(l@),
{
    contains_chars(l, &chars_of("rust")) || contains_chars(l, &chars_of("cargo"))
        || contains_chars(l, &chars_of("rustc")) || contains_chars(l, &chars_of("gcc"))
        || contains_chars(l, &chars_of("g++")) || contains_chars(l, &chars_of("clang"))
        || contains_chars(l, &chars_of("python")) || contains_chars(l, &chars_of("node"))
        || contains_chars(l, &chars_of("npm")) || contains_chars(l, &chars_of("yarn"))
        || contains_chars(l, &chars_of("java")) || contains_chars(l, &chars_of("mvn"))
        || contains_chars(l, &chars_of("gradle")) || contains_chars(l, &chars_of("docker"))
        || contains_chars(l, &chars_of("podman")) || contains_chars(l, &chars_of("git"))
}

fn matches_terminal_exec(l: &Vec<char>) -> (r: bool)
    ensures
        r == matches_terminal(l@),
{
    contains_chars(l, &chars_of("terminal")) || contains_chars(l, &chars_of("konsole"))
        || contains_chars(l, &chars_of("gnome-terminal")) || contains_chars(
        l,
        &chars_of("xterm"),
    ) || contains_chars(l, &chars_of("alacritty")) || contains_chars(l, &chars_of("kitty"))
        || contains_chars(l, &chars_of("wezterm")) || contains_chars(l, &chars_of("terminator"))
        || eq_chars(l, &chars_of("bash")) || eq_chars(l, &chars_of("zsh")) || eq_chars(
        l,
        &chars_of("fish"),
    ) || eq_chars(l, &chars_of("sh"))
}

fn matches_editor_exec(l: &Vec<char>) -> (r: bool)
    ensures
        r == matches_editor(l@),
{
    contains_chars(l, &chars_of("vim")) || contains_chars(l, &chars_of("nvim"))
        || contains_chars(l, &chars_of("neovim")) || contains_chars(l, &chars_of("emacs"))
        || contains_chars(l, &chars_of("code")) || contains_chars(l, &chars_of("vscode"))
        || contains_chars(l, &chars_of("sublime")) || contains_chars(l, &chars_of("atom"))
        || contains_chars(l, &chars_of("nano")) || contains_chars(l, &chars_of("gedit"))
        || contains_chars(l, &chars_of("kate"))
}

fn matches_media_exec(l: &Vec<char>) -> (r: bool)
    ensures
        r == matches_media(l@),
{
    contains_chars(l, &chars_of("vlc")) || contains_chars(l, &chars_of("mpv"))
        || contains_chars(l, &chars_of("spotify")) || contains_chars(l, &chars_of("rhythmbox"))
        || contains_chars(l, &chars_of("totem")) || contains_chars(l, &chars_of("ffmpeg"))
        || contains_chars(l, &chars_of("pulseaudio")) || contains_chars(l, &chars_of("pipewire"))
        || contains_chars(l, &chars_of("alsa"))
}

fn matches_background_exec(l: &Vec<char>) -> (r: bool)
    ensures
        r == matches_background(l@),
{
    ends_with_chars(l, &chars_of("d")) || contains_chars(l, &chars_of("daemon"))
        || contains_chars(l, &chars_of("service")) || starts_with_chars(l, &chars_of("gvfs"))
}

/// Categorize one process name; total and deterministic, with `User` as the
/// fallback for names no rule group matches.
pub fn categorize_process(name: &str) -> (c: ProcessCategory)
    ensures
        c == spec_categorize(name@),
{
    let l = lower_chars(name);
    if matches_system_exec(&l) {
        ProcessCategory::System
    } else if matches_browser_exec(&l) {
        ProcessCategory::Browser
    } else if matches_development_exec(&l) {
        ProcessCategory::Development
    } else if matches_terminal_exec(&l) {
        ProcessCategory::Terminal
    } else if matches_editor_exec(&l) {
        ProcessCategory::Editor
    } else if matches_media_exec(&l) {
        ProcessCategory::Media
    } else if matches_background_exec(&l) {
        ProcessCategory::Background
    } else {
        ProcessCategory::User
    }
}

/// Matching is case-insensitive: two names with the same case folding are
/// always put in the same category.
pub proof fn lemma_categorize_case_insensitive(a: Seq<char>, b: Seq<char>)
    requires
        lower_seq(a) == lower_seq(b),
    ensures
        spec_categorize(a) == spec_categorize(b),
{
}

/// Rule precedence: a name matched by the System group is categorized as
/// `System`, whatever later groups (such as Development) would say.
pub proof fn lemma_system_precedence(name: Seq<char>)
    requires
        matches_system(lower_seq(name)),
    ensures
        spec_categorize(name) == ProcessCategory::System,
{
}

} // verus!
