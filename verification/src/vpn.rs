//! The VPN status model and the parsers for the status text of the
//! supported command-line tools and for interface-listing output.
//!
//! Probing (running external tools and reading interfaces) is an outside
//! collaborator's job; the library holds the status record it fills in and
//! the pure text parsing.

use vstd::prelude::*;

use crate::text::{
    chars_of, chars_to_string, contains_chars, contains_seq, remove_all_chars, remove_all_seq,
    split_lines_chars, split_nl, split_pat, split_pat_chars, starts_with_chars, starts_with_seq,
    trim_chars, trim_seq, ws_tokens, ws_tokens_chars,
};

verus! {

/// A VPN state change currently in progress; `Idle` when none is.
#[derive(Clone, PartialEq, Eq, Structural, Debug)]
pub enum VpnAction {
    Idle,
}

/// The VPN providers the dashboard can tell apart.
#[derive(Clone, PartialEq, Eq, Structural, Debug)]
pub enum VpnProvider {
    Unknown,
    ProtonVPN,
    NordVPN,
    Mullvad,
    ExpressVPN,
    Generic,
}

impl VpnProvider {
    /// Display name of the provider.
    pub open spec fn spec_name(self) -> Seq<char> {
        match self {
            VpnProvider::Unknown => "Unknown"@,
            VpnProvider::ProtonVPN => "ProtonVPN"@,
            VpnProvider::NordVPN => "NordVPN"@,
            VpnProvider::Mullvad => "Mullvad"@,
            VpnProvider::ExpressVPN => "ExpressVPN"@,
            VpnProvider::Generic => "VPN"@,
        }
    }

    pub fn name(&self) -> (r: &'static str)
        ensures
            r@ == self.spec_name(),
    {
        match self {
            VpnProvider::Unknown => "Unknown",
            VpnProvider::ProtonVPN => "ProtonVPN",
            VpnProvider::NordVPN => "NordVPN",
            VpnProvider::Mullvad => "Mullvad",
            VpnProvider::ExpressVPN => "ExpressVPN",
            VpnProvider::Generic => "VPN",
        }
    }
}

/// What is known about the VPN link after one probe.
#[derive(Clone, Debug)]
pub struct VpnStatus {
    pub connected: bool,
    pub provider: VpnProvider,
    pub server: Option<String>,
    pub country: Option<String>,
    pub city: Option<String>,
    pub ip: Option<String>,
    pub protocol: Option<String>,
    pub interface: Option<String>,
    pub connection_time: Option<String>,
    pub raw_output: String,
    pub action: VpnAction,
    pub action_message: Option<String>,
}

impl VpnStatus {
    /// The empty status: nothing detected yet.
    pub fn new() -> (r: VpnStatus)
        ensures
            !r.connected,
            r.provider == VpnProvider::Unknown,
            r.server is None,
            r.country is None,
            r.city is None,
            r.ip is None,
            r.protocol is None,
            r.interface is None,
            r.connection_time is None,
            r.raw_output@ == Seq::<char>::empty(),
            r.action == VpnAction::Idle,
            r.action_message is None,
    {
        VpnStatus {
            connected: false,
            provider: VpnProvider::Unknown,
            server: None,
            country: None,
            city: None,
            ip: None,
            protocol: None,
            interface: None,
            connection_time: None,
            raw_output: String::new(),
            action: VpnAction::Idle,
            action_message: None,
        }
    }

    /// Record an action in progress together with its message.
    pub fn set_action(&mut self, action: VpnAction, message: Option<String>)
        ensures
            final(self).action == action,
            final(self).action_message == message,
            final(self).connected == old(self).connected,
            final(self).provider == old(self).provider,
            final(self).server == old(self).server,
            final(self).country == old(self).country,
            final(self).city == old(self).city,
            final(self).ip == old(self).ip,
            final(self).protocol == old(self).protocol,
            final(self).interface == old(self).interface,
            final(self).connection_time == old(self).connection_time,
            final(self).raw_output == old(self).raw_output,
    {
        self.action = action;
        self.action_message = message;
    }

    /// Clear any recorded action.
    pub fn clear_action(&mut self)
        ensures
            final(self).action == VpnAction::Idle,
            final(self).action_message is None,
            final(self).connected == old(self).connected,
            final(self).provider == old(self).provider,
            final(self).server == old(self).server,
            final(self).country == old(self).country,
            final(self).city == old(self).city,
            final(self).ip == old(self).ip,
            final(self).protocol == old(self).protocol,
            final(self).interface == old(self).interface,
            final(self).connection_time == old(self).connection_time,
            final(self).raw_output == old(self).raw_output,
    {
        self.action = VpnAction::Idle;
        self.action_message = None;
    }
}

/// The status text reports an established connection.
pub open spec fn proton_connected(out: Seq<char>) -> bool {
    contains_seq(out, "Status:"@) && contains_seq(out, "Connected"@)
}

/// The status text reports no connection, which cuts parsing short: the
/// detail fields stay empty.
pub open spec fn proton_disconnected_early(out: Seq<char>) -> bool {
    !proton_connected(out) && (contains_seq(out, "Disconnected"@) || contains_seq(
        out,
        "No active"@,
    ))
}

/// The value carried by the last line whose trimmed form starts with
/// `pat`: the line with the marker removed and whitespace trimmed.
pub open spec fn last_field(lines: Seq<Seq<char>>, pat: Seq<char>) -> Option<Seq<char>>
    decreases lines.len(),
{
    if lines.len() == 0 {
        None
    } else {
        let lt = trim_seq(lines.last());
        if starts_with_seq(lt, pat) {
            Some(trim_seq(remove_all_seq(lt, pat)))
        } else {
            last_field(lines.drop_last(), pat)
        }
    }
}

/// The connection-time value: its line may start with either of two
/// markers, and both markers are removed from it.
pub open spec fn last_time_field(lines: Seq<Seq<char>>) -> Option<Seq<char>>
    decreases lines.len(),
{
    if lines.len() == 0 {
        None
    } else {
        let lt = trim_seq(lines.last());
        if starts_with_seq(lt, "Time:"@) || starts_with_seq(lt, "Connection time:"@) {
            Some(trim_seq(remove_all_seq(remove_all_seq(lt, "Time:"@), "Connection time:"@)))
        } else {
            last_time_field(lines.drop_last())
        }
    }
}

/// Parse the status text printed by the ProtonVPN command-line tool.
///
/// The connection flag is read from the whole text; the detail fields come
/// from the last line carrying each marker, unless a disconnected report
/// cuts parsing short.
pub fn parse_protonvpn_output(output: &str, raw: String) -> (st: VpnStatus)
    ensures
        st.provider == VpnProvider::ProtonVPN,
        st.raw_output == raw,
        st.action == VpnAction::Idle,
        st.action_message is None,
        st.interface is None,
        st.connected == proton_connected(output@),
        proton_disconnected_early(output@) ==> st.server is None && st.country is None
            && st.city is None && st.ip is None && st.protocol is None && st.connection_time
            is None,
        !proton_disconnected_early(output@) ==> {
            &&& st.server.deep_view() == last_field(split_nl(output@), "Server:"@)
            &&& st.country.deep_view() == last_field(split_nl(output@), "Country:"@)
            &&& st.city.deep_view() == last_field(split_nl(output@), "City:"@)
            &&& st.ip.deep_view() == last_field(split_nl(output@), "IP:"@)
            &&& st.protocol.deep_view() == last_field(split_nl(output@), "Protocol:"@)
            &&& st.connection_time.deep_view() == last_time_field(split_nl(output@))
        },
{
    let mut st = VpnStatus::new();
    st.raw_output = raw;
    st.provider = VpnProvider::ProtonVPN;

    let out_chars = chars_of(output);
    if contains_chars(&out_chars, &chars_of("Status:")) && contains_chars(
        &out_chars,
        &chars_of("Connected"),
    ) {
        st.connected = true;
    } else if contains_chars(&out_chars, &chars_of("Disconnected")) || contains_chars(
        &out_chars,
        &chars_of("No active"),
    ) {
        st.connected = false;
        return st;
    }
    let lines = split_lines_chars(&out_chars);
    let ghost lv = split_nl(output@);
    proof {
        assert(lines.deep_view() == lv);
    }
    let n = lines.len();
    let mut i: usize = 0;
    while i < n
        invariant
            i <= n,
            n == lv.len(),
            lines.deep_view() == lv,
            st.server.deep_view() == last_field(lv.take(i as int), "Server:"@),
            st.country.deep_view() == last_field(lv.take(i as int), "Country:"@),
            st.city.deep_view() == last_field(lv.take(i as int), "City:"@),
            st.ip.deep_view() == last_field(lv.take(i as int), "IP:"@),
            st.protocol.deep_view() == last_field(lv.take(i as int), "Protocol:"@),
            st.connection_time.deep_view() == last_time_field(lv.take(i as int)),
            st.provider == VpnProvider::ProtonVPN,
            st.raw_output == raw,
            st.action == VpnAction::Idle,
            st.action_message is None,
            st.interface is None,
            st.connected == proton_connected(output@),
        decreases n - i,
    {
        proof {
            assert(lv.take(i + 1).drop_last() =~= lv.take(i as int));
            assert(lv.take(i + 1).last() == lv[i as int]);
            assert(lines.deep_view()[i as int] == lines@[i as int].deep_view());
            assert(lines@[i as int].deep_view() =~= lines@[i as int]@);
        }
        let line = trim_chars(&lines[i]);
        proof {
            reveal_strlit("Server:");
            reveal_strlit("Country:");
            reveal_strlit("City:");
            reveal_strlit("IP:");
            reveal_strlit("Protocol:");
            reveal_strlit("Time:");
            reveal_strlit("Connection time:");
            let lt = line@;
            if starts_with_seq(lt, "Server:"@) {
                crate::text::lemma_prefix_excludes(lt, "Server:"@, "Country:"@, 0);
                crate::text::lemma_prefix_excludes(lt, "Server:"@, "City:"@, 0);
                crate::text::lemma_prefix_excludes(lt, "Server:"@, "IP:"@, 0);
                crate::text::lemma_prefix_excludes(lt, "Server:"@, "Protocol:"@, 0);
                crate::text::lemma_prefix_excludes(lt, "Server:"@, "Time:"@, 0);
                crate::text::lemma_prefix_excludes(lt, "Server:"@, "Connection time:"@, 0);
            }
            if starts_with_seq(lt, "Country:"@) {
                crate::text::lemma_prefix_excludes(lt, "Country:"@, "City:"@, 1);
                crate::text::lemma_prefix_excludes(lt, "Country:"@, "IP:"@, 0);
                crate::text::lemma_prefix_excludes(lt, "Country:"@, "Protocol:"@, 0);
                crate::text::lemma_prefix_excludes(lt, "Country:"@, "Time:"@, 0);
                crate::text::lemma_prefix_excludes(lt, "Country:"@, "Connection time:"@, 2);
            }
            if starts_with_seq(lt, "City:"@) {
                crate::text::lemma_prefix_excludes(lt, "City:"@, "IP:"@, 0);
                crate::text::lemma_prefix_excludes(lt, "City:"@, "Protocol:"@, 0);
                crate::text::lemma_prefix_excludes(lt, "City:"@, "Time:"@, 0);
                crate::text::lemma_prefix_excludes(lt, "City:"@, "Connection time:"@, 1);
            }
            if starts_with_seq(lt, "IP:"@) {
                crate::text::lemma_prefix_excludes(lt, "IP:"@, "Protocol:"@, 0);
                crate::text::lemma_prefix_excludes(lt, "IP:"@, "Time:"@, 0);
                crate::text::lemma_prefix_excludes(lt, "IP:"@, "Connection time:"@, 0);
            }
            if starts_with_seq(lt, "Protocol:"@) {
                crate::text::lemma_prefix_excludes(lt, "Protocol:"@, "Time:"@, 0);
                crate::text::lemma_prefix_excludes(lt, "Protocol:"@, "Connection time:"@, 0);
            }
        }
        if starts_with_chars(&line, &chars_of("Server:")) {
            let v = trim_chars(&remove_all_chars(&line, &chars_of("Server:")));
            st.server = Some(chars_to_string(&v));
        } else if starts_with_chars(&line, &chars_of("Country:")) {
            let v = trim_chars(&remove_all_chars(&line, &chars_of("Country:")));
            st.country = Some(chars_to_string(&v));
        } else if starts_with_chars(&line, &chars_of("City:")) {
            let v = trim_chars(&remove_all_chars(&line, &chars_of("City:")));
            st.city = Some(chars_to_string(&v));
        } else if starts_with_chars(&line, &chars_of("IP:")) {
            let v = trim_chars(&remove_all_chars(&line, &chars_of("IP:")));
            st.ip = Some(chars_to_string(&v));
        } else if starts_with_chars(&line, &chars_of("Protocol:")) {
            let v = trim_chars(&remove_all_chars(&line, &chars_of("Protocol:")));
            st.protocol = Some(chars_to_string(&v));
        } else if starts_with_chars(&line, &chars_of("Time:")) || starts_with_chars(
            &line,
            &chars_of("Connection time:"),
        ) {
            let v = trim_chars(
                &remove_all_chars(
                    &remove_all_chars(&line, &chars_of("Time:")),
                    &chars_of("Connection time:"),
                ),
            );
            st.connection_time = Some(chars_to_string(&v));
        }
        i = i + 1;
    }
    proof {
        assert(lv.take(n as int) =~= lv);
    }
    st
}

/// The text after the first colon of a line, up to the next colon or the
/// end, trimmed.
pub open spec fn colon_value(lt: Seq<char>) -> Seq<char> {
    trim_seq(split_pat(lt, ":"@)[1])
}

/// The colon value of the last line whose trimmed form starts with either
/// marker.
pub open spec fn last_colon_field(lines: Seq<Seq<char>>, p1: Seq<char>, p2: Seq<char>) -> Option<
    Seq<char>,
>
    decreases lines.len(),
{
    if lines.len() == 0 {
        None
    } else {
        let lt = trim_seq(lines.last());
        if starts_with_seq(lt, p1) || starts_with_seq(lt, p2) {
            Some(colon_value(lt))
        } else {
            last_colon_field(lines.drop_last(), p1, p2)
        }
    }
}

/// The NordVPN status text reports an established connection.
pub open spec fn nord_recognized(out: Seq<char>) -> bool {
    contains_seq(out, "Status: Connected"@) || contains_seq(out, "Status: connected"@)
}

/// What a successful NordVPN parse promises of its status record.
pub open spec fn nord_result_ok(r: Option<VpnStatus>, out: Seq<char>) -> bool {
    match r {
        None => !nord_recognized(out),
        Some(st) => {
            &&& nord_recognized(out)
            &&& st.connected
            &&& st.provider == VpnProvider::NordVPN
            &&& st.raw_output@ == out
            &&& st.server.deep_view() == last_colon_field(split_nl(out), "Server:"@, "Hostname:"@)
            &&& st.country.deep_view() == last_colon_field(split_nl(out), "Country:"@, "Country:"@)
            &&& st.city.deep_view() == last_colon_field(split_nl(out), "City:"@, "City:"@)
            &&& st.ip.deep_view() == last_colon_field(
                split_nl(out),
                "Current server IP:"@,
                "IP:"@,
            )
            &&& st.protocol.deep_view() == last_colon_field(
                split_nl(out),
                "Current protocol:"@,
                "Protocol:"@,
            )
            &&& st.connection_time.deep_view() == last_colon_field(
                split_nl(out),
                "Uptime:"@,
                "Uptime:"@,
            )
            &&& st.interface is None
            &&& st.action == VpnAction::Idle
            &&& st.action_message is None
        },
    }
}

/// A line that starts with a marker carrying a colon contains a colon.
proof fn lemma_prefix_gives_colon(lt: Seq<char>, p: Seq<char>, m: int)
    requires
        starts_with_seq(lt, p),
        0 <= m < p.len(),
        p[m] == ':',
    ensures
        contains_seq(lt, ":"@),
{
    reveal_strlit(":");
    assert(lt.subrange(0, p.len() as int)[m] == lt[m]);
    assert(lt[m] == ':');
    assert(lt.subrange(m, m + ":"@.len()) =~= ":"@);
}

/// Extract the colon value of a line known to carry one of the colon
/// markers.
fn colon_value_exec(lt: &Vec<char>) -> (r: Vec<char>)
    requires
        contains_seq(lt@, ":"@),
    ensures
        r@ == colon_value(lt@),
{
    proof {
        reveal_strlit(":");
        crate::text::lemma_split_pat_len_ge2(lt@, ":"@);
    }
    let parts = split_pat_chars(lt, &chars_of(":"));
    proof {
        assert(parts.deep_view()[1] == parts@[1].deep_view());
        assert(parts@[1].deep_view() =~= parts@[1]@);
    }
    trim_chars(&parts[1])
}

/// Parse the status text printed by the NordVPN command-line tool: `None`
/// unless the text reports a connection, otherwise a record whose fields
/// come from the last line carrying each marker.
pub fn parse_nordvpn_output(output: &str) -> (r: Option<VpnStatus>)
    ensures
        nord_result_ok(r, output@),
{
    let out_chars = chars_of(output);
    if !(contains_chars(&out_chars, &chars_of("Status: Connected")) || contains_chars(
        &out_chars,
        &chars_of("Status: connected"),
    )) {
        return None;
    }
    let mut st = VpnStatus::new();
    st.connected = true;
    st.provider = VpnProvider::NordVPN;
    st.raw_output = output.to_owned();

    let lines = split_lines_chars(&out_chars);
    let ghost lv = split_nl(output@);
    proof {
        assert(lines.deep_view() == lv);
    }
    let n = lines.len();
    let mut i: usize = 0;
    while i < n
        invariant
            i <= n,
            n == lv.len(),
            lines.deep_view() == lv,
            st.server.deep_view() == last_colon_field(lv.take(i as int), "Server:"@, "Hostname:"@),
            st.country.deep_view() == last_colon_field(lv.take(i as int), "Country:"@, "Country:"@),
            st.city.deep_view() == last_colon_field(lv.take(i as int), "City:"@, "City:"@),
            st.ip.deep_view() == last_colon_field(
                lv.take(i as int),
                "Current server IP:"@,
                "IP:"@,
            ),
            st.protocol.deep_view() == last_colon_field(
                lv.take(i as int),
                "Current protocol:"@,
                "Protocol:"@,
            ),
            st.connection_time.deep_view() == last_colon_field(
                lv.take(i as int),
                "Uptime:"@,
                "Uptime:"@,
            ),
            st.connected,
            st.provider == VpnProvider::NordVPN,
            st.raw_output@ == output@,
            st.interface is None,
            st.action == VpnAction::Idle,
            st.action_message is None,
        decreases n - i,
    {
        proof {
            assert(lv.take(i + 1).drop_last() =~= lv.take(i as int));
            assert(lv.take(i + 1).last() == lv[i as int]);
            assert(lines.deep_view()[i as int] == lines@[i as int].deep_view());
            assert(lines@[i as int].deep_view() =~= lines@[i as int]@);
        }
        let line = trim_chars(&lines[i]);
        proof {
            reveal_strlit("Server:");
            reveal_strlit("Hostname:");
            reveal_strlit("Country:");
            reveal_strlit("City:");
            reveal_strlit("Current server IP:");
            reveal_strlit("IP:");
            reveal_strlit("Current protocol:");
            reveal_strlit("Protocol:");
            reveal_strlit("Uptime:");
            let lt = line@;
            if starts_with_seq(lt, "Server:"@) {
                crate::text::lemma_prefix_excludes(lt, "Server:"@, "Country:"@, 0);
                crate::text::lemma_prefix_excludes(lt, "Server:"@, "City:"@, 0);
                crate::text::lemma_prefix_excludes(lt, "Server:"@, "Current server IP:"@, 0);
                crate::text::lemma_prefix_excludes(lt, "Server:"@, "IP:"@, 0);
                crate::text::lemma_prefix_excludes(lt, "Server:"@, "Current protocol:"@, 0);
                crate::text::lemma_prefix_excludes(lt, "Server:"@, "Protocol:"@, 0);
                crate::text::lemma_prefix_excludes(lt, "Server:"@, "Uptime:"@, 0);
                lemma_prefix_gives_colon(lt, "Server:"@, 6);
            }
            if starts_with_seq(lt, "Hostname:"@) {
                crate::text::lemma_prefix_excludes(lt, "Hostname:"@, "Country:"@, 0);
                crate::text::lemma_prefix_excludes(lt, "Hostname:"@, "City:"@, 0);
                crate::text::lemma_prefix_excludes(lt, "Hostname:"@, "Current server IP:"@, 0);
                crate::text::lemma_prefix_excludes(lt, "Hostname:"@, "IP:"@, 0);
                crate::text::lemma_prefix_excludes(lt, "Hostname:"@, "Current protocol:"@, 0);
                crate::text::lemma_prefix_excludes(lt, "Hostname:"@, "Protocol:"@, 0);
                crate::text::lemma_prefix_excludes(lt, "Hostname:"@, "Uptime:"@, 0);
                lemma_prefix_gives_colon(lt, "Hostname:"@, 8);
            }
            if starts_with_seq(lt, "Country:"@) {
                crate::text::lemma_prefix_excludes(lt, "Country:"@, "City:"@, 1);
                crate::text::lemma_prefix_excludes(lt, "Country:"@, "Current server IP:"@, 1);
                crate::text::lemma_prefix_excludes(lt, "Country:"@, "IP:"@, 0);
                crate::text::lemma_prefix_excludes(lt, "Country:"@, "Current protocol:"@, 1);
                crate::text::lemma_prefix_excludes(lt, "Country:"@, "Protocol:"@, 0);
                crate::text::lemma_prefix_excludes(lt, "Country:"@, "Uptime:"@, 0);
                lemma_prefix_gives_colon(lt, "Country:"@, 7);
            }
            if starts_with_seq(lt, "City:"@) {
                crate::text::lemma_prefix_excludes(lt, "City:"@, "Current server IP:"@, 1);
                crate::text::lemma_prefix_excludes(lt, "City:"@, "IP:"@, 0);
                crate::text::lemma_prefix_excludes(lt, "City:"@, "Current protocol:"@, 1);
                crate::text::lemma_prefix_excludes(lt, "City:"@, "Protocol:"@, 0);
                crate::text::lemma_prefix_excludes(lt, "City:"@, "Uptime:"@, 0);
                lemma_prefix_gives_colon(lt, "City:"@, 4);
            }
            if starts_with_seq(lt, "Current server IP:"@) {
                crate::text::lemma_prefix_excludes(lt, "Current server IP:"@, "Current protocol:"@, 8);
                crate::text::lemma_prefix_excludes(lt, "Current server IP:"@, "Protocol:"@, 0);
                crate::text::lemma_prefix_excludes(lt, "Current server IP:"@, "Uptime:"@, 0);
                lemma_prefix_gives_colon(lt, "Current server IP:"@, 17);
            }
            if starts_with_seq(lt, "IP:"@) {
                crate::text::lemma_prefix_excludes(lt, "IP:"@, "Current protocol:"@, 0);
                crate::text::lemma_prefix_excludes(lt, "IP:"@, "Protocol:"@, 0);
                crate::text::lemma_prefix_excludes(lt, "IP:"@, "Uptime:"@, 0);
                lemma_prefix_gives_colon(lt, "IP:"@, 2);
            }
            if starts_with_seq(lt, "Current protocol:"@) {
                crate::text::lemma_prefix_excludes(lt, "Current protocol:"@, "Uptime:"@, 0);
                lemma_prefix_gives_colon(lt, "Current protocol:"@, 16);
            }
            if starts_with_seq(lt, "Protocol:"@) {
                crate::text::lemma_prefix_excludes(lt, "Protocol:"@, "Uptime:"@, 0);
                lemma_prefix_gives_colon(lt, "Protocol:"@, 8);
            }
            if starts_with_seq(lt, "Uptime:"@) {
                lemma_prefix_gives_colon(lt, "Uptime:"@, 6);
            }
        }
        if starts_with_chars(&line, &chars_of("Server:")) || starts_with_chars(
            &line,
            &chars_of("Hostname:"),
        ) {
            let v = colon_value_exec(&line);
            st.server = Some(chars_to_string(&v));
        } else if starts_with_chars(&line, &chars_of("Country:")) {
            let v = colon_value_exec(&line);
            st.country = Some(chars_to_string(&v));
        } else if starts_with_chars(&line, &chars_of("City:")) {
            let v = colon_value_exec(&line);
            st.city = Some(chars_to_string(&v));
        } else if starts_with_chars(&line, &chars_of("Current server IP:")) || starts_with_chars(
            &line,
            &chars_of("IP:"),
        ) {
            let v = colon_value_exec(&line);
            st.ip = Some(chars_to_string(&v));
        } else if starts_with_chars(&line, &chars_of("Current protocol:")) || starts_with_chars(
            &line,
            &chars_of("Protocol:"),
        ) {
            let v = colon_value_exec(&line);
            st.protocol = Some(chars_to_string(&v));
        } else if starts_with_chars(&line, &chars_of("Uptime:")) {
            let v = colon_value_exec(&line);
            st.connection_time = Some(chars_to_string(&v));
        }
        i = i + 1;
    }
    proof {
        assert(lv.take(n as int) =~= lv);
    }
    Some(st)
}

/// The Mullvad status text reports an established connection.
pub open spec fn mull_recognized(out: Seq<char>) -> bool {
    contains_seq(out, "Connected"@)
}

/// The fields the Mullvad parse accumulates: server, country, address.
pub open spec fn mull_init() -> (Option<Seq<char>>, Option<Seq<char>>, Option<Seq<char>>) {
    (None, None, None)
}

/// One line of Mullvad status text applied to the accumulated fields: a
/// "Connected to (server) in (country)" line sets server and country, an
/// "IPv4:" line sets the address, anything else changes nothing.
pub open spec fn mull_line(
    st: (Option<Seq<char>>, Option<Seq<char>>, Option<Seq<char>>),
    line: Seq<char>,
) -> (Option<Seq<char>>, Option<Seq<char>>, Option<Seq<char>>) {
    if contains_seq(line, "Connected to"@) {
        let parts = split_pat(line, "to "@);
        if parts.len() >= 2 {
            let ins = split_pat(parts[1], " in "@);
            (
                Some(trim_seq(ins[0])),
                if ins.len() >= 2 {
                    Some(trim_seq(ins[1]))
                } else {
                    st.1
                },
                st.2,
            )
        } else {
            st
        }
    } else if contains_seq(line, "IPv4:"@) {
        let parts = split_pat(line, "IPv4:"@);
        (st.0, st.1, Some(trim_seq(parts[1])))
    } else {
        st
    }
}

/// All lines of Mullvad status text applied in order.
pub open spec fn mull_fold(
    lines: Seq<Seq<char>>,
    st: (Option<Seq<char>>, Option<Seq<char>>, Option<Seq<char>>),
) -> (Option<Seq<char>>, Option<Seq<char>>, Option<Seq<char>>)
    decreases lines.len(),
{
    if lines.len() == 0 {
        st
    } else {
        mull_fold(lines.drop_first(), mull_line(st, lines.first()))
    }
}

/// What a successful Mullvad parse promises of its status record.
pub open spec fn mull_result_ok(r: Option<VpnStatus>, out: Seq<char>) -> bool {
    match r {
        None => !mull_recognized(out),
        Some(st) => {
            let f = mull_fold(split_nl(out), mull_init());
            &&& mull_recognized(out)
            &&& st.connected
            &&& st.provider == VpnProvider::Mullvad
            &&& st.raw_output@ == out
            &&& st.server.deep_view() == f.0
            &&& st.country.deep_view() == f.1
            &&& st.ip.deep_view() == f.2
            &&& st.city is None
            &&& st.protocol is None
            &&& st.interface is None
            &&& st.connection_time is None
            &&& st.action == VpnAction::Idle
            &&& st.action_message is None
        },
    }
}

/// Parse the status text printed by the Mullvad command-line tool: `None`
/// unless the text reports a connection, otherwise a record read from the
/// "Connected to" and "IPv4:" lines.
pub fn parse_mullvad_output(output: &str) -> (r: Option<VpnStatus>)
    ensures
        mull_result_ok(r, output@),
{
    let out_chars = chars_of(output);
    if !contains_chars(&out_chars, &chars_of("Connected")) {
        return None;
    }
    let mut st = VpnStatus::new();
    st.connected = true;
    st.provider = VpnProvider::Mullvad;
    st.raw_output = output.to_owned();

    let lines = split_lines_chars(&out_chars);
    let ghost lv = split_nl(output@);
    proof {
        assert(lines.deep_view() == lv);
        assert(lv.skip(0) =~= lv);
    }
    let n = lines.len();
    let mut i: usize = 0;
    while i < n
        invariant
            i <= n,
            n == lv.len(),
            lines.deep_view() == lv,
            mull_fold(lv, mull_init()) == mull_fold(
                lv.skip(i as int),
                (st.server.deep_view(), st.country.deep_view(), st.ip.deep_view()),
            ),
            st.connected,
            st.provider == VpnProvider::Mullvad,
            st.raw_output@ == output@,
            st.city is None,
            st.protocol is None,
            st.interface is None,
            st.connection_time is None,
            st.action == VpnAction::Idle,
            st.action_message is None,
        decreases n - i,
    {
        let ghost cur = (st.server.deep_view(), st.country.deep_view(), st.ip.deep_view());
        proof {
            assert(lv.skip(i as int).first() == lv[i as int]);
            assert(lv.skip(i as int).drop_first() =~= lv.skip(i + 1));
            assert(lines.deep_view()[i as int] == lines@[i as int].deep_view());
            assert(lines@[i as int].deep_view() =~= lines@[i as int]@);
        }
        let line = &lines[i];
        proof {
            reveal_strlit("to ");
            reveal_strlit(" in ");
        }
        if contains_chars(line, &chars_of("Connected to")) {
            let parts = split_pat_chars(line, &chars_of("to "));
            proof {
                assert(parts@.len() == parts.deep_view().len());
            }
            if parts.len() >= 2 {
                proof {
                    assert(parts.deep_view()[1] == parts@[1].deep_view());
                    assert(parts@[1].deep_view() =~= parts@[1]@);
                }
                let ins = split_pat_chars(&parts[1], &chars_of(" in "));
                proof {
                    crate::text::lemma_split_pat_len(parts@[1]@, " in "@);
                    assert(ins.deep_view()[0] == ins@[0].deep_view());
                    assert(ins@[0].deep_view() =~= ins@[0]@);
                    assert(ins@.len() == ins.deep_view().len());
                }
                let v0 = trim_chars(&ins[0]);
                st.server = Some(chars_to_string(&v0));
                if ins.len() >= 2 {
                    proof {
                        assert(ins.deep_view()[1] == ins@[1].deep_view());
                        assert(ins@[1].deep_view() =~= ins@[1]@);
                    }
                    let v1 = trim_chars(&ins[1]);
                    st.country = Some(chars_to_string(&v1));
                }
            }
        } else if contains_chars(line, &chars_of("IPv4:")) {
            proof {
                reveal_strlit("IPv4:");
                crate::text::lemma_split_pat_len_ge2(lines@[i as int]@, "IPv4:"@);
            }
            let parts = split_pat_chars(line, &chars_of("IPv4:"));
            proof {
                assert(parts.deep_view()[1] == parts@[1].deep_view());
                assert(parts@[1].deep_view() =~= parts@[1]@);
            }
            let v = trim_chars(&parts[1]);
            st.ip = Some(chars_to_string(&v));
        }
        proof {
            assert((st.server.deep_view(), st.country.deep_view(), st.ip.deep_view())
                == mull_line(cur, lv[i as int]));
        }
        i = i + 1;
    }
    proof {
        assert(lv.skip(n as int) =~= Seq::<Seq<char>>::empty());
    }
    Some(st)
}

/// An interface query succeeded: the tool printed something, and not its
/// "does not exist" report.
pub open spec fn interface_active(out: Seq<char>) -> bool {
    out.len() > 0 && !contains_seq(out, "does not exist"@)
}

/// Whether interface-listing output shows a live interface.
pub fn interface_present(output: &str) -> (r: bool)
    ensures
        r == interface_active(output@),
{
    if output.is_empty() {
        return false;
    }
    let out_chars = chars_of(output);
    !contains_chars(&out_chars, &chars_of("does not exist"))
}

/// The address on the last "inet " line that carries at least two
/// whitespace-separated tokens: its second token.
pub open spec fn last_inet_addr(lines: Seq<Seq<char>>) -> Option<Seq<char>>
    decreases lines.len(),
{
    if lines.len() == 0 {
        None
    } else {
        let line = lines.last();
        let toks = ws_tokens(trim_seq(line));
        if contains_seq(line, "inet "@) && toks.len() >= 2 {
            Some(toks[1])
        } else {
            last_inet_addr(lines.drop_last())
        }
    }
}

/// Pull the interface address out of interface-listing output.
pub fn parse_interface_addr(output: &str) -> (r: Option<String>)
    ensures
        r.deep_view() == last_inet_addr(split_nl(output@)),
{
    let out_chars = chars_of(output);
    let lines = split_lines_chars(&out_chars);
    let ghost lv = split_nl(output@);
    proof {
        assert(lines.deep_view() == lv);
    }
    let mut addr: Option<String> = None;
    let n = lines.len();
    let mut i: usize = 0;
    while i < n
        invariant
            i <= n,
            n == lv.len(),
            lines.deep_view() == lv,
            addr.deep_view() == last_inet_addr(lv.take(i as int)),
        decreases n - i,
    {
        proof {
            assert(lv.take(i + 1).drop_last() =~= lv.take(i as int));
            assert(lv.take(i + 1).last() == lv[i as int]);
            assert(lines.deep_view()[i as int] == lines@[i as int].deep_view());
            assert(lines@[i as int].deep_view() =~= lines@[i as int]@);
        }
        let line = &lines[i];
        if contains_chars(line, &chars_of("inet ")) {
            let trimmed = trim_chars(line);
            let toks = ws_tokens_chars(&trimmed);
            proof {
                assert(toks@.len() == toks.deep_view().len());
            }
            if toks.len() >= 2 {
                proof {
                    assert(toks.deep_view()[1] == toks@[1].deep_view());
                    assert(toks@[1].deep_view() =~= toks@[1]@);
                }
                addr = Some(chars_to_string(&toks[1]));
            }
        }
        i = i + 1;
    }
    proof {
        assert(lv.take(n as int) =~= lv);
    }
    addr
}

/// Whether a process listing mentions a ProtonVPN process.
pub fn mentions_proton(output: &str) -> (r: bool)
    ensures
        r == (contains_seq(output@, "protonvpn"@) || contains_seq(output@, "proton-vpn"@)),
{
    let out_chars = chars_of(output);
    contains_chars(&out_chars, &chars_of("protonvpn")) || contains_chars(
        &out_chars,
        &chars_of("proton-vpn"),
    )
}

} // verus!
