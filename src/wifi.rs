//! Wi-Fi association metadata: which tool to run on each platform, and how
//! its output is read.
use vstd::prelude::*;
use crate::text::{
    chars_of, same_chars, first_line_with, first_line_with_exec, parse_i32, parse_i32_exec,
    second_field, second_field_exec, string_from_chars, strip_all, strip_all_exec, trim,
    trim_chars,
};

verus! {

/// The platform families whose Wi-Fi tooling is known.
#[derive(Clone, Copy, Debug, PartialEq, Eq)]
pub enum WifiPlatform {
    /// Reads `airport -I`.
    MacOs,
    /// Reads `iwctl station wlan0 show`.
    Linux,
    /// Reads `netsh wlan show interfaces`.
    Windows,
    /// No Wi-Fi tool is known.
    Other,
}

/// A program to run, with its arguments.
pub struct ProbeCommand {
    pub program: String,
    pub args: Vec<String>,
}

impl ProbeCommand {
    /// The program followed by its arguments.
    pub open spec fn words(&self) -> Seq<Seq<char>> {
        seq![self.program@] + self.args@.map_values(|a: String| a@)
    }
}

/// The command line of the Wi-Fi tool of each platform.
pub open spec fn command_line(p: WifiPlatform) -> Option<Seq<Seq<char>>> {
    match p {
        WifiPlatform::MacOs => Some(seq!["airport"@, "-I"@]),
        WifiPlatform::Linux => Some(seq!["iwctl"@, "station"@, "wlan0"@, "show"@]),
        WifiPlatform::Windows => Some(seq!["netsh"@, "wlan"@, "show"@, "interfaces"@]),
        WifiPlatform::Other => None,
    }
}

/// The token that marks the line naming the network.
pub open spec fn ssid_marker(p: WifiPlatform) -> Seq<char> {
    match p {
        WifiPlatform::MacOs => "SSID:"@,
        WifiPlatform::Linux => "Connected network"@,
        WifiPlatform::Windows => "SSID"@,
        WifiPlatform::Other => Seq::empty(),
    }
}

/// The token that marks the line giving the signal strength.
pub open spec fn signal_marker(p: WifiPlatform) -> Seq<char> {
    match p {
        WifiPlatform::MacOs => "agrCtlRSSI:"@,
        WifiPlatform::Linux => "RSSI"@,
        WifiPlatform::Windows => "Signal"@,
        WifiPlatform::Other => Seq::empty(),
    }
}

/// The network name that the tool output `out` gives: the first line holding
/// the marker, with the marker removed and trimmed; on Windows the trimmed
/// second `':'`-separated field of that line.
pub open spec fn ssid_in(p: WifiPlatform, out: Seq<char>) -> Option<Seq<char>> {
    match p {
        WifiPlatform::Other => None,
        WifiPlatform::Windows => match first_line_with(out, ssid_marker(p)) {
            Some(l) => match second_field(l, ':') {
                Some(f) => Some(trim(f)),
                None => None,
            },
            None => None,
        },
        _ => match first_line_with(out, ssid_marker(p)) {
            Some(l) => Some(trim(strip_all(l, ssid_marker(p)))),
            None => None,
        },
    }
}

/// The signal strength that the tool output `out` gives, read as an `i32`
/// from the first line holding the marker: with the marker removed and
/// trimmed; on Windows from the trimmed second `':'`-separated field with
/// every `'%'` removed.
pub open spec fn signal_in(p: WifiPlatform, out: Seq<char>) -> Option<i32> {
    match p {
        WifiPlatform::Other => None,
        WifiPlatform::Windows => match first_line_with(out, signal_marker(p)) {
            Some(l) => match second_field(l, ':') {
                Some(f) => parse_i32(strip_all(trim(f), "%"@)),
                None => None,
            },
            None => None,
        },
        _ => match first_line_with(out, signal_marker(p)) {
            Some(l) => parse_i32(trim(strip_all(l, signal_marker(p)))),
            None => None,
        },
    }
}

/// What the probe reports from the tool output `out`: the network name, and
/// the signal strength only where a network name was found.
pub open spec fn wifi_fields(p: WifiPlatform, out: Seq<char>) -> (Option<Seq<char>>, Option<i32>) {
    let ssid = ssid_in(p, out);
    (ssid, if ssid is Some { signal_in(p, out) } else { None })
}

/// Output without a line holding the network-name marker gives neither a
/// network name nor a signal strength.
pub proof fn lemma_no_name_line_gives_nothing(p: WifiPlatform, out: Seq<char>)
    requires
        first_line_with(out, ssid_marker(p)) is None,
    ensures
        wifi_fields(p, out) == (None::<Seq<char>>, None::<i32>),
{
}

pub open spec fn opt_view(o: Option<String>) -> Option<Seq<char>> {
    match o {
        Some(s) => Some(s@),
        None => None,
    }
}

fn string_vec(words: &[&str]) -> (r: Vec<String>)
    ensures
        r@.map_values(|a: String| a@) == words@.map_values(|w: &str| w@),
{
    let mut v: Vec<String> = Vec::new();
    let mut i: usize = 0;
    while i < words.len()
        invariant
            i <= words.len(),
            v.len() == i,
            forall|j: int| 0 <= j < i ==> #[trigger] v@[j]@ == words@[j]@,
        decreases words.len() - i,
    {
        v.push(String::from_str(words[i]));
        i = i + 1;
    }
    assert(v@.map_values(|a: String| a@) =~= words@.map_values(|w: &str| w@));
    v
}

/// The Wi-Fi tool to run on platform `p`; none where no tool is known.
pub fn probe_command(p: WifiPlatform) -> (r: Option<ProbeCommand>)
    ensures
        match r {
            Some(c) => command_line(p) == Some(c.words()),
            None => command_line(p) is None,
        },
{
    let (program, args): (&str, Vec<String>) = match p {
        WifiPlatform::MacOs => {
            let a = string_vec(&["-I"]);
            assert(a@.map_values(|a: String| a@) =~= seq!["-I"@]);
            ("airport", a)
        },
        WifiPlatform::Linux => {
            let a = string_vec(&["station", "wlan0", "show"]);
            assert(a@.map_values(|a: String| a@) =~= seq!["station"@, "wlan0"@, "show"@]);
            ("iwctl", a)
        },
        WifiPlatform::Windows => {
            let a = string_vec(&["wlan", "show", "interfaces"]);
            assert(a@.map_values(|a: String| a@) =~= seq!["wlan"@, "show"@, "interfaces"@]);
            ("netsh", a)
        },
        WifiPlatform::Other => {
            return None;
        },
    };
    let c = ProbeCommand { program: String::from_str(program), args };
    assert(c.words() =~= command_line(p)->0);
    Some(c)
}

/// The first line of `out` holding `marker`, with the marker removed and trimmed.
fn marked_value(out: &Vec<char>, marker: &Vec<char>) -> (r: Option<Vec<char>>)
    ensures
        match r {
            Some(v) => first_line_with(out@, marker@) is Some && v@ == trim(
                strip_all(first_line_with(out@, marker@)->0, marker@),
            ),
            None => first_line_with(out@, marker@) is None,
        },
{
    match first_line_with_exec(out, marker) {
        Some(l) => Some(trim_chars(&strip_all_exec(&l, marker))),
        None => None,
    }
}

/// The trimmed second `':'`-separated field of the first line of `out`
/// holding `marker`.
fn marked_field(out: &Vec<char>, marker: &Vec<char>) -> (r: Option<Vec<char>>)
    ensures
        match r {
            Some(v) => first_line_with(out@, marker@) is Some && second_field(
                first_line_with(out@, marker@)->0,
                ':',
            ) is Some && v@ == trim(second_field(first_line_with(out@, marker@)->0, ':')->0),
            None => first_line_with(out@, marker@) is None || second_field(
                first_line_with(out@, marker@)->0,
                ':',
            ) is None,
        },
{
    match first_line_with_exec(out, marker) {
        Some(l) => match second_field_exec(&l, ':') {
            Some(f) => Some(trim_chars(&f)),
            None => None,
        },
        None => None,
    }
}

/// Reads the network name and signal strength out of the text that the Wi-Fi
/// tool of platform `p` printed. Lines are matched by substring, the first
/// match wins; a signal is reported only with a network name. Text without a
/// matching line gives `(None, None)`.
pub fn parse_wifi_output(p: WifiPlatform, output: &str) -> (r: (Option<String>, Option<i32>))
    ensures
        opt_view(r.0) == wifi_fields(p, output@).0,
        r.1 == wifi_fields(p, output@).1,
{
    let out = chars_of(output);
    match p {
        WifiPlatform::Other => (None, None),
        WifiPlatform::Windows => {
            let ssid_m = chars_of("SSID");
            match marked_field(&out, &ssid_m) {
                None => (None, None),
                Some(name) => {
                    let signal_m = chars_of("Signal");
                    let percent = chars_of("%");
                    let signal = match marked_field(&out, &signal_m) {
                        Some(f) => parse_i32_exec(&strip_all_exec(&f, &percent)),
                        None => None,
                    };
                    (Some(string_from_chars(name)), signal)
                },
            }
        },
        _ => {
            let (ssid_m, signal_m) = if matches!(p, WifiPlatform::MacOs) {
                (chars_of("SSID:"), chars_of("agrCtlRSSI:"))
            } else {
                (chars_of("Connected network"), chars_of("RSSI"))
            };
            match marked_value(&out, &ssid_m) {
                None => (None, None),
                Some(name) => {
                    let signal = match marked_value(&out, &signal_m) {
                        Some(v) => parse_i32_exec(&v),
                        None => None,
                    };
                    (Some(string_from_chars(name)), signal)
                },
            }
        },
    }
}

/// The text of a tool's output, its invalid UTF-8 sequences replaced.
pub uninterp spec fn utf8_lossy(b: Seq<u8>) -> Seq<char>;

/// Relies on `String::from_utf8_lossy`: the text depends on the bytes alone.
#[verifier::external_body]
fn decode_lossy(b: &Vec<u8>) -> (r: String)
    ensures
        r@ == utf8_lossy(b@),
{
    String::from_utf8_lossy(b).into_owned()
}

/// What the probe reports from what the tool printed, or from `None` where
/// it could not be run: then neither a network name nor a signal.
pub open spec fn wifi_report(p: WifiPlatform, stdout: Option<Seq<u8>>) -> (
    Option<Seq<char>>,
    Option<i32>,
) {
    match stdout {
        Some(b) => wifi_fields(p, utf8_lossy(b)),
        None => (None, None),
    }
}

pub open spec fn opt_bytes(o: Option<Vec<u8>>) -> Option<Seq<u8>> {
    match o {
        Some(b) => Some(b@),
        None => None,
    }
}

/// Reads the Wi-Fi tool's captured standard output, `None` where the tool
/// could not be run.
pub fn wifi_from_tool_output(p: WifiPlatform, stdout: &Option<Vec<u8>>) -> (r: (
    Option<String>,
    Option<i32>,
))
    ensures
        opt_view(r.0) == wifi_report(p, opt_bytes(*stdout)).0,
        r.1 == wifi_report(p, opt_bytes(*stdout)).1,
{
    match stdout {
        Some(b) => {
            let text = decode_lossy(b);
            parse_wifi_output(p, text.as_str())
        },
        None => (None, None),
    }
}

impl WifiPlatform {
    /// The platform family that an OS name (as `std::env::consts::OS` gives
    /// it) belongs to.
    pub fn from_os_name(os: &str) -> (r: WifiPlatform)
        ensures
            r == (if os@ == "macos"@ {
                WifiPlatform::MacOs
            } else if os@ == "linux"@ {
                WifiPlatform::Linux
            } else if os@ == "windows"@ {
                WifiPlatform::Windows
            } else {
                WifiPlatform::Other
            }),
    {
        let name = chars_of(os);
        if same_chars(&name, &chars_of("macos")) {
            WifiPlatform::MacOs
        } else if same_chars(&name, &chars_of("linux")) {
            WifiPlatform::Linux
        } else if same_chars(&name, &chars_of("windows")) {
            WifiPlatform::Windows
        } else {
            WifiPlatform::Other
        }
    }
}

} // verus!
