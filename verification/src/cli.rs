//! What is asked for on the command line.
pub mod laws;

use crate::config::{address, address_of};
use crate::daemonclient::Client;
use crate::discovery::{
    AirPlayDevice, AirPlayDeviceView, FEATURE_FPSAP25, FEATURE_SCREEN, FEATURE_TRANSIENT_PAIRING,
};
use crate::mirror::frames::MirrorOpts;
use crate::protocol::{command, Request, RequestView};
use crate::text::{
    chars, find_last_char, from_chars, last_index_of, parse_unsigned, same, starts, starts_with,
    texts, trim_start_matches, unsigned_of, without_start,
};
use crate::tray::DEFAULT_RTSP_PORT;
use vstd::prelude::*;
use vstd::slice::slice_subrange;

verus! {

/// What the program is asked to do.
#[derive(Clone, Copy, Debug, PartialEq, Eq, Structural)]
pub enum Command {
    Discover,
    Pair,
    Mirror,
    Version,
    Help,
}

/// What the program is asked to do, by the first word.
pub open spec fn command_named(word: Seq<char>) -> Command {
    if word == "discover"@ || word == "scan"@ {
        Command::Discover
    } else if word == "pair"@ {
        Command::Pair
    } else if word == "mirror"@ {
        Command::Mirror
    } else if word == "version"@ || word == "--version"@ || word == "-V"@ {
        Command::Version
    } else {
        Command::Help
    }
}

/// What the program is asked to do: help, when nothing is said.
pub fn parse_command(word: Option<&str>) -> (r: Command)
    ensures
        r == (match word {
            Some(w) => command_named(w@),
            None => Command::Help,
        }),
{
    let w: &str = match word {
        Some(w) => w,
        None => {
            return Command::Help;
        },
    };
    if same(w, "discover") || same(w, "scan") {
        Command::Discover
    } else if same(w, "pair") {
        Command::Pair
    } else if same(w, "mirror") {
        Command::Mirror
    } else if same(w, "version") || same(w, "--version") || same(w, "-V") {
        Command::Version
    } else {
        Command::Help
    }
}

/// The host and the port of a receiver; `None` when what stands behind the last colon is no port.
pub open spec fn named_target(target: Seq<char>) -> Option<(Seq<char>, u16)> {
    match last_index_of(target, ':', target.len() as int) {
        Some(i) => match unsigned_of(target.skip(i + 1), 0xffff) {
            Some(p) => Some((target.take(i), p as u16)),
            None => None,
        },
        None => Some((target, DEFAULT_RTSP_PORT)),
    }
}

/// The host and the port of a receiver.
pub fn parse_target(target: &str) -> (r: Option<(String, u16)>)
    ensures
        match named_target(target@) {
            Some((host, port)) => r matches Some(found) && found.0@ == host && found.1 == port,
            None => r is None,
        },
{
    let all: Vec<char> = chars(target);
    match find_last_char(all.as_slice(), ':') {
        Some(i) => {
            let n: usize = all.len();
            let host: &[char] = slice_subrange(all.as_slice(), 0, i);
            let port: &[char] = slice_subrange(all.as_slice(), i + 1, n);
            assert(host@ =~= target@.take(i as int));
            assert(port@ =~= target@.skip(i + 1));
            match parse_unsigned(port, 0xffff) {
                Some(p) => Some((from_chars(host), p as u16)),
                None => None,
            }
        },
        None => Some((target.to_owned(), DEFAULT_RTSP_PORT)),
    }
}

/// The number behind a flag, or the one to take where there is none.
pub open spec fn number_at(args: Seq<Seq<char>>, i: int, max: nat, otherwise: int) -> int {
    if i < args.len() {
        match unsigned_of(args[i], max) {
            Some(n) => n as int,
            None => otherwise,
        }
    } else {
        otherwise
    }
}

/// The settings and the code that the flags from number `i` on ask for, or the number of a flag
/// that there is not.
pub open spec fn flags_from(args: Seq<Seq<char>>, i: int, opts: MirrorOpts, pin: Seq<char>) -> Result<
    (MirrorOpts, Seq<char>),
    int,
>
    decreases args.len() - i,
{
    if i >= args.len() {
        Ok((opts, pin))
    } else if args[i] == "--fit"@ {
        flags_skip(
            args,
            i,
            MirrorOpts { fit_pct: number_at(args, i + 1, 255, 0) as u8, ..opts },
            pin,
        )
    } else if args[i] == "--bitrate"@ {
        flags_skip(
            args,
            i,
            MirrorOpts {
                bitrate_kbps: number_at(args, i + 1, u32::MAX as nat, 0) as u32,
                ..opts
            },
            pin,
        )
    } else if args[i] == "--fps"@ {
        flags_skip(
            args,
            i,
            MirrorOpts { fps: number_at(args, i + 1, u32::MAX as nat, 30) as u32, ..opts },
            pin,
        )
    } else if args[i] == "--pin"@ {
        flags_skip(
            args,
            i,
            opts,
            if i + 1 < args.len() {
                args[i + 1]
            } else {
                Seq::empty()
            },
        )
    } else if args[i] == "--sw"@ {
        flags_from(args, i + 1, MirrorOpts { force_software_encoder: true, ..opts }, pin)
    } else if args[i] == "--no-encrypt"@ {
        flags_from(args, i + 1, MirrorOpts { no_encrypt: true, ..opts }, pin)
    } else {
        Err(i)
    }
}

/// The flags behind one that has a value.
pub open spec fn flags_skip(args: Seq<Seq<char>>, i: int, opts: MirrorOpts, pin: Seq<char>) -> Result<
    (MirrorOpts, Seq<char>),
    int,
>
    decreases args.len() - i - 1,
{
    if i + 1 >= args.len() {
        Ok((opts, pin))
    } else {
        flags_from(args, i + 2, opts, pin)
    }
}

/// The settings that no flag changes.
pub open spec fn plain_opts() -> MirrorOpts {
    MirrorOpts {
        fit_pct: 0,
        bitrate_kbps: 0,
        fps: 30,
        force_software_encoder: false,
        no_encrypt: false,
        no_audio: false,
        mute_audio: false,
    }
}

fn read_number(args: &[String], i: usize, max: u64, otherwise: u64) -> (r: u64)
    requires
        otherwise <= max,
    ensures
        r == number_at(texts(args@), i as int, max as nat, otherwise as int),
        r <= max,
{
    if i < args.len() {
        assert(texts(args@)[i as int] == args@[i as int]@);
        match parse_unsigned(chars(args[i].as_str()).as_slice(), max) {
            Some(n) => n,
            None => otherwise,
        }
    } else {
        otherwise
    }
}

/// The settings and the code that the flags ask for, or the number of a flag that there is not.
pub fn parse_mirror_flags(args: &[String]) -> (r: Result<(MirrorOpts, String), usize>)
    ensures
        match flags_from(texts(args@), 0, plain_opts(), Seq::empty()) {
            Ok((opts, pin)) => r matches Ok(found) && found.0 == opts && found.1@ == pin,
            Err(i) => r is Err && r->Err_0 == i,
        },
{
    let mut opts = MirrorOpts::default();
    let mut pin = String::new();
    let ghost all = texts(args@);
    assert(pin@ =~= Seq::<char>::empty());
    let mut i: usize = 0;
    while i < args.len()
        invariant
            i <= args@.len(),
            all == texts(args@),
            flags_from(all, 0, plain_opts(), Seq::empty()) == flags_from(all, i as int, opts, pin@),
        decreases args.len() - i,
    {
        proof {
            reveal_with_fuel(flags_from, 2);
            reveal_with_fuel(flags_skip, 2);
        }
        let flag: &str = args[i].as_str();
        assert(all[i as int] == flag@);
        let n: usize = args.len();
        if same(flag, "--fit") {
            opts.fit_pct = read_number(args, i + 1, 255, 0) as u8;
            i += 1;
        } else if same(flag, "--bitrate") {
            opts.bitrate_kbps = read_number(args, i + 1, u32::MAX as u64, 0) as u32;
            i += 1;
        } else if same(flag, "--fps") {
            opts.fps = read_number(args, i + 1, u32::MAX as u64, 30) as u32;
            i += 1;
        } else if same(flag, "--pin") {
            pin = if i + 1 < n {
                assert(all[i + 1] == args@[i + 1]@);
                args[i + 1].clone()
            } else {
                let none = String::new();
                assert(none@ =~= Seq::<char>::empty());
                none
            };
            i += 1;
        } else if same(flag, "--sw") {
            opts.force_software_encoder = true;
        } else if same(flag, "--no-encrypt") {
            opts.no_encrypt = true;
        } else {
            return Err(i);
        }
        if i >= n {
            return Ok((opts, pin));
        }
        i += 1;
    }
    Ok((opts, pin))
}

/// What a receiver can do, in a few words.
pub open spec fn tags_of(features: u64) -> Seq<Seq<char>> {
    (if features & FEATURE_SCREEN != 0 {
        seq!["screen"@]
    } else {
        Seq::empty()
    }) + (if features & FEATURE_FPSAP25 != 0 {
        seq!["fairplay-sap"@]
    } else {
        Seq::empty()
    }) + (if features & FEATURE_TRANSIENT_PAIRING != 0 {
        seq!["transient-pair"@]
    } else {
        Seq::empty()
    })
}

/// Words with commas between them.
pub open spec fn with_commas(words: Seq<Seq<char>>) -> Seq<char>
    decreases words.len(),
{
    if words.len() == 0 {
        Seq::empty()
    } else if words.len() == 1 {
        words[0]
    } else {
        with_commas(words.drop_last()) + ", "@ + words.last()
    }
}

/// A receiver in a line.
pub open spec fn line_of(d: AirPlayDeviceView) -> Seq<char> {
    "\u{2022} "@ + d.name + "  ["@ + (if d.model.len() == 0 {
        "?"@
    } else {
        d.model
    }) + "]  "@ + address_of(d.ip, d.port) + "  ("@ + with_commas(tags_of(d.features)) + ")"@
}

fn push_word(out: &mut String, words: Ghost<Seq<Seq<char>>>, word: &str, first: bool)
    requires
        old(out)@ == with_commas(words@),
        first == (words@.len() == 0),
    ensures
        final(out)@ == with_commas(words@.push(word@)),
{
    let ghost after = words@.push(word@);
    assert(after.drop_last() =~= words@);
    if !first {
        out.push_str(", ");
    }
    out.push_str(word);
    if first {
        assert(out@ =~= word@);
    }
}

fn tag_text(d: &AirPlayDevice) -> (r: String)
    ensures
        r@ == with_commas(tags_of(d@.features)),
{
    let mut out = String::new();
    let mut first: bool = true;
    let ghost mut words: Seq<Seq<char>> = Seq::empty();
    assert(out@ =~= Seq::<char>::empty());
    if d.supports_screen() {
        push_word(&mut out, Ghost(words), "screen", first);
        proof {
            words = words.push("screen"@);
        }
        first = false;
    }
    if d.supports_fairplay_sap() {
        push_word(&mut out, Ghost(words), "fairplay-sap", first);
        proof {
            words = words.push("fairplay-sap"@);
        }
        first = false;
    }
    if d.supports_transient_pairing() {
        push_word(&mut out, Ghost(words), "transient-pair", first);
        proof {
            words = words.push("transient-pair"@);
        }
    }
    assert(words =~= tags_of(d@.features));
    out
}

/// A receiver in a line.
pub fn device_line(d: &AirPlayDevice) -> (r: String)
    ensures
        r@ == line_of(d@),
{
    let mut out: String = "\u{2022} ".to_owned();
    out.push_str(d.name.as_str());
    out.push_str("  [");
    if d.model.as_str().is_empty() {
        out.push_str("?");
    } else {
        out.push_str(d.model.as_str());
    }
    out.push_str("]  ");
    out.push_str(address(d.ip.as_str(), d.port).as_str());
    out.push_str("  (");
    out.push_str(tag_text(d).as_str());
    out.push_str(")");
    out
}

/// Why a control command cannot be sent.
#[derive(Clone, Copy, Debug, PartialEq, Eq, Structural)]
pub enum ControlError {
    /// The path of the socket is missing.
    NoSocketPath,
    NoCommand,
    /// The code is missing.
    NoPin,
    UnknownCommand,
}

/// The path in a word that states it behind a name and an equals sign.
pub open spec fn path_in(word: Seq<char>) -> Option<Seq<char>> {
    if starts(word, "--socket="@) {
        Some(without_start(word, "--socket="@))
    } else if starts(word, "-socket="@) {
        Some(without_start(word, "-socket="@))
    } else {
        None
    }
}

/// The socket, if one is named, and the other words, from number `i` on.
pub open spec fn control_words(
    argv: Seq<Seq<char>>,
    i: int,
    socket: Option<Seq<char>>,
    words: Seq<Seq<char>>,
) -> Option<(Option<Seq<char>>, Seq<Seq<char>>)>
    decreases argv.len() - i,
{
    if i >= argv.len() {
        Some((socket, words))
    } else if argv[i] == "--socket"@ || argv[i] == "-socket"@ {
        if i + 1 >= argv.len() {
            None
        } else {
            control_words(argv, i + 2, Some(argv[i + 1]), words)
        }
    } else {
        match path_in(argv[i]) {
            Some(path) => control_words(argv, i + 1, Some(path), words),
            None => control_words(argv, i + 1, socket, words.push(argv[i])),
        }
    }
}

fn find_path(word: &str) -> (r: Option<String>)
    ensures
        match path_in(word@) {
            Some(path) => r matches Some(p) && p@ == path,
            None => r is None,
        },
{
    proof {
        reveal_strlit("--socket=");
        reveal_strlit("-socket=");
    }
    let all: Vec<char> = chars(word);
    let long: Vec<char> = chars("--socket=");
    let short: Vec<char> = chars("-socket=");
    if starts_with(all.as_slice(), long.as_slice()) {
        return Some(
            from_chars(trim_start_matches(all.as_slice(), long.as_slice()).as_slice()),
        );
    }
    if starts_with(all.as_slice(), short.as_slice()) {
        return Some(
            from_chars(trim_start_matches(all.as_slice(), short.as_slice()).as_slice()),
        );
    }
    None
}

/// The text of a value, if there is one.
pub open spec fn opt_string(v: Option<String>) -> Option<Seq<char>> {
    match v {
        Some(s) => Some(s@),
        None => None,
    }
}

/// Parts the words behind the program's name: the socket, if one is named, and the others.
pub fn split_control_args(argv: &[String]) -> (r: Result<
    (Option<String>, Vec<String>),
    ControlError,
>)
    ensures
        match control_words(texts(argv@), 0, None, Seq::empty()) {
            Some((socket, words)) => r matches Ok(found) && opt_string(found.0) == socket && texts(
                found.1@,
            ) == words,
            None => r is Err && r->Err_0 == ControlError::NoSocketPath,
        },
{
    let ghost all = texts(argv@);
    let mut socket: Option<String> = None;
    let mut words: Vec<String> = Vec::new();
    assert(texts(words@) =~= Seq::empty());
    let mut i: usize = 0;
    while i < argv.len()
        invariant
            i <= argv@.len(),
            all == texts(argv@),
            control_words(all, 0, None, Seq::empty()) == control_words(
                all,
                i as int,
                opt_string(socket),
                texts(words@),
            ),
        decreases argv.len() - i,
    {
        let word: &str = argv[i].as_str();
        let n: usize = argv.len();
        assert(all[i as int] == word@);
        if same(word, "--socket") || same(word, "-socket") {
            if n - i <= 1 {
                return Err(ControlError::NoSocketPath);
            }
            assert(all[i + 1] == argv@[i + 1]@);
            socket = Some(argv[i + 1].clone());
            i += 2;
        } else {
            match find_path(word) {
                Some(path) => {
                    socket = Some(path);
                },
                None => {
                    let ghost before_words = texts(words@);
                    words.push(argv[i].clone());
                    assert(texts(words@) =~= before_words.push(word@));
                },
            }
            i += 1;
        }
    }
    Ok((socket, words))
}

/// A word, or nothing where there is none.
pub open spec fn word_at(words: Seq<Seq<char>>, i: int) -> Seq<char> {
    if i < words.len() {
        words[i]
    } else {
        Seq::empty()
    }
}

/// A command for one receiver or for all.
pub open spec fn for_target(cmd: Seq<char>, words: Seq<Seq<char>>) -> RequestView {
    RequestView { target: word_at(words, 1), ..command(cmd) }
}

/// The request that control words ask for.
pub open spec fn asked(words: Seq<Seq<char>>) -> Result<RequestView, ControlError> {
    if words.len() == 0 {
        Err(ControlError::NoCommand)
    } else if words[0] == "status"@ || words[0] == "discover"@ || words[0] == "devices"@ {
        Ok(command(words[0]))
    } else if words[0] == "connect"@ {
        Ok(
            RequestView {
                cmd: words[0],
                target: word_at(words, 1),
                port: 0,
                pin: word_at(words, 2),
            },
        )
    } else if words[0] == "pin"@ {
        if words.len() < 2 {
            Err(ControlError::NoPin)
        } else {
            Ok(RequestView { pin: words[1], ..command(words[0]) })
        }
    } else if words[0] == "disconnect"@ || words[0] == "mute"@ || words[0] == "unmute"@ {
        Ok(for_target(words[0], words))
    } else {
        Err(ControlError::UnknownCommand)
    }
}

fn word_or_none(words: &[String], i: usize) -> (r: String)
    ensures
        r@ == word_at(texts(words@), i as int),
{
    if i < words.len() {
        assert(texts(words@)[i as int] == words@[i as int]@);
        words[i].clone()
    } else {
        let none = String::new();
        assert(none@ =~= Seq::<char>::empty());
        none
    }
}

/// The request that control words ask for.
pub fn control_request(client: &Client, words: &[String]) -> (r: Result<Request, ControlError>)
    ensures
        match asked(texts(words@)) {
            Ok(q) => r matches Ok(found) && found@ == q,
            Err(e) => r is Err && r->Err_0 == e,
        },
{
    if words.len() == 0 {
        return Err(ControlError::NoCommand);
    }
    let cmd: &str = words[0].as_str();
    let more: bool = words.len() > 1;
    let target: String = word_or_none(words, 1);
    assert(texts(words@)[0] == cmd@);
    assert(!more ==> target@ =~= Seq::<char>::empty());
    if same(cmd, "status") {
        Ok(client.status())
    } else if same(cmd, "discover") {
        Ok(client.discover())
    } else if same(cmd, "devices") {
        Ok(client.devices())
    } else if same(cmd, "connect") {
        Ok(client.connect(target.as_str(), 0, word_or_none(words, 2).as_str()))
    } else if same(cmd, "pin") {
        if !more {
            return Err(ControlError::NoPin);
        }
        Ok(client.pin(target.as_str()))
    } else if same(cmd, "disconnect") {
        Ok(
            if more {
                client.disconnect_target(target.as_str())
            } else {
                client.disconnect()
            },
        )
    } else if same(cmd, "mute") {
        Ok(
            if more {
                client.mute_target(target.as_str())
            } else {
                client.mute()
            },
        )
    } else if same(cmd, "unmute") {
        Ok(
            if more {
                client.unmute_target(target.as_str())
            } else {
                client.unmute()
            },
        )
    } else {
        Err(ControlError::UnknownCommand)
    }
}

} // verus!
