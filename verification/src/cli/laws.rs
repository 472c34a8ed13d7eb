//! What the words of a command line ask for.
use crate::cli::{
    asked, command_named, control_words, flags_from, line_of, named_target, plain_opts, tags_of,
    with_commas, Command, ControlError,
};
use crate::discovery::AirPlayDeviceView;
use crate::mirror::frames::MirrorOpts;
use crate::protocol::RequestView;
use crate::text::decimal_of;
use crate::text::laws::{law_decimal, law_last_place};
use vstd::prelude::*;

verus! {

proof fn lemma_words()
    ensures
        "discover"@.len() == 8,
        "scan"@.len() == 4,
        "pair"@.len() == 4,
        "mirror"@.len() == 6,
        "version"@.len() == 7,
        "--version"@.len() == 9,
        "-V"@.len() == 2,
        "scan"@ != "pair"@,
{
    reveal_strlit("discover");
    reveal_strlit("scan");
    reveal_strlit("pair");
    reveal_strlit("mirror");
    reveal_strlit("version");
    reveal_strlit("--version");
    reveal_strlit("-V");
    assert("scan"@[0] == 's');
    assert("pair"@[0] == 'p');
}

proof fn lemma_flag_words()
    ensures
        "--fit"@.len() == 5,
        "--bitrate"@.len() == 9,
        "--fps"@.len() == 5,
        "--pin"@.len() == 5,
        "--sw"@.len() == 4,
        "--no-encrypt"@.len() == 12,
        "--fit"@ != "--fps"@,
        "--fit"@ != "--pin"@,
        "--fps"@ != "--pin"@,
{
    reveal_strlit("--fit");
    reveal_strlit("--bitrate");
    reveal_strlit("--fps");
    reveal_strlit("--pin");
    reveal_strlit("--sw");
    reveal_strlit("--no-encrypt");
    assert("--fit"@[3] == 'i');
    assert("--fps"@[3] == 'p');
    assert("--fit"@[2] == 'f');
    assert("--pin"@[2] == 'p');
    assert("--fps"@[2] == 'f');
}

proof fn lemma_control_words()
    ensures
        "status"@.len() == 6,
        "discover"@.len() == 8,
        "devices"@.len() == 7,
        "connect"@.len() == 7,
        "pin"@.len() == 3,
        "disconnect"@.len() == 10,
        "mute"@.len() == 4,
        "unmute"@.len() == 6,
        "status"@ != "unmute"@,
        "devices"@ != "connect"@,
{
    reveal_strlit("status");
    reveal_strlit("discover");
    reveal_strlit("devices");
    reveal_strlit("connect");
    reveal_strlit("pin");
    reveal_strlit("disconnect");
    reveal_strlit("mute");
    reveal_strlit("unmute");
    assert("status"@[0] == 's');
    assert("unmute"@[0] == 'u');
    assert("devices"@[0] == 'd');
    assert("connect"@[0] == 'c');
}

/// Which word asks for what; any other asks for help.
pub proof fn law_commands(word: Seq<char>)
    ensures
        command_named(word) == Command::Discover <==> word == "discover"@ || word == "scan"@,
        command_named(word) == Command::Pair <==> word == "pair"@,
        command_named(word) == Command::Mirror <==> word == "mirror"@,
        command_named(word) == Command::Version <==> word == "version"@ || word == "--version"@ || word
            == "-V"@,
{
    lemma_words();
}

/// A receiver is named by its host and its port, or by its host alone, whose port is then 7000.
pub proof fn law_target(host: Seq<char>, port: u16)
    requires
        forall|i: int| 0 <= i < host.len() ==> #[trigger] host[i] != ':',
    ensures
        named_target(host + seq![':'] + decimal_of(port as nat)) == Some((host, port)),
        named_target(host) == Some((host, 7000u16)),
{
    let d = decimal_of(port as nat);
    let s = host + seq![':'] + d;
    let n = host.len() as int;
    crate::text::lemma_decimal_value(port as nat);
    assert forall|j: int| n < j < s.len() implies s[j] != ':' by {
        assert(s[j] == d[j - n - 1]);
        assert(crate::text::is_digit(d[j - n - 1]));
    }
    law_last_place(s, ':', s.len() as int, n);
    assert(s.take(n) =~= host);
    assert(s.skip(n + 1) =~= d);
    law_decimal(port as nat, 0xffff);
    lemma_no_place(host, host.len() as int);
}

proof fn lemma_no_place(s: Seq<char>, n: int)
    requires
        0 <= n <= s.len(),
        forall|i: int| 0 <= i < s.len() ==> #[trigger] s[i] != ':',
    ensures
        crate::text::last_index_of(s, ':', n) is None,
    decreases n,
{
    if n > 0 {
        lemma_no_place(s, n - 1);
    }
}

/// What the settings are without flags, and what each flag changes: only what it is for, and the
/// flags behind it count as they would without it.
pub proof fn law_flags(args: Seq<Seq<char>>, i: int, opts: MirrorOpts, pin: Seq<char>, n: nat)
    requires
        0 <= i < args.len(),
    ensures
        plain_opts() == (MirrorOpts {
            fit_pct: 0,
            bitrate_kbps: 0,
            fps: 30,
            force_software_encoder: false,
            no_encrypt: false,
            no_audio: false,
            mute_audio: false,
        }),
        args[i] == "--sw"@ ==> flags_from(args, i, opts, pin) == flags_from(
            args,
            i + 1,
            MirrorOpts { force_software_encoder: true, ..opts },
            pin,
        ),
        args[i] == "--no-encrypt"@ ==> flags_from(args, i, opts, pin) == flags_from(
            args,
            i + 1,
            MirrorOpts { no_encrypt: true, ..opts },
            pin,
        ),
        i + 1 < args.len() && args[i] == "--pin"@ ==> flags_from(args, i, opts, pin) == flags_from(
            args,
            i + 2,
            opts,
            args[i + 1],
        ),
        i + 1 < args.len() && args[i] == "--fit"@ && args[i + 1] == decimal_of(n) && n <= 255
            ==> flags_from(args, i, opts, pin) == flags_from(
            args,
            i + 2,
            MirrorOpts { fit_pct: n as u8, ..opts },
            pin,
        ),
        i + 1 < args.len() && args[i] == "--bitrate"@ && args[i + 1] == decimal_of(n) && n <= u32::MAX
            ==> flags_from(args, i, opts, pin) == flags_from(
            args,
            i + 2,
            MirrorOpts { bitrate_kbps: n as u32, ..opts },
            pin,
        ),
        i + 1 < args.len() && args[i] == "--fps"@ && args[i + 1] == decimal_of(n) && n <= u32::MAX
            ==> flags_from(args, i, opts, pin) == flags_from(
            args,
            i + 2,
            MirrorOpts { fps: n as u32, ..opts },
            pin,
        ),
        flags_from(args, args.len() as int, opts, pin) == Ok::<(MirrorOpts, Seq<char>), int>(
            (opts, pin),
        ),
{
    lemma_flag_words();
    reveal_with_fuel(flags_from, 2);
    reveal_with_fuel(crate::cli::flags_skip, 2);
    law_decimal(n, 255);
    law_decimal(n, u32::MAX as nat);
}

/// What the words of the control program ask the daemon for.
pub proof fn law_control(words: Seq<Seq<char>>)
    ensures
        words.len() == 0 ==> asked(words) == Err::<RequestView, ControlError>(
            ControlError::NoCommand,
        ),
        words.len() > 0 && (words[0] == "status"@ || words[0] == "discover"@ || words[0]
            == "devices"@) ==> (asked(words) matches Ok(q) && q.cmd == words[0] && q.target.len() == 0
            && q.pin.len() == 0 && q.port == 0),
        words.len() == 3 && words[0] == "connect"@ ==> (asked(words) matches Ok(q) && q.cmd == words[0]
            && q.target == words[1] && q.pin == words[2] && q.port == 0),
        words.len() == 1 && words[0] == "pin"@ ==> asked(words) == Err::<RequestView, ControlError>(
            ControlError::NoPin,
        ),
        words.len() == 2 && words[0] == "pin"@ ==> (asked(words) matches Ok(q) && q.cmd == words[0]
            && q.pin == words[1] && q.target.len() == 0),
        words.len() == 2 && (words[0] == "disconnect"@ || words[0] == "mute"@ || words[0]
            == "unmute"@) ==> (asked(words) matches Ok(q) && q.cmd == words[0] && q.target == words[1]
            && q.pin.len() == 0),
{
    lemma_control_words();
}

/// The path of the socket is taken out of the words, wherever it stands; the others stay in order.
pub proof fn law_socket(argv: Seq<Seq<char>>, path: Seq<char>)
    ensures
        argv.len() > 1 && (argv[0] == "--socket"@ || argv[0] == "-socket"@) ==> control_words(
            argv,
            0,
            None,
            Seq::empty(),
        ) == control_words(argv, 2, Some(argv[1]), Seq::empty()),
        argv.len() == 1 && (argv[0] == "--socket"@ || argv[0] == "-socket"@) ==> control_words(
            argv,
            0,
            None,
            Seq::empty(),
        ) is None,
        argv.len() > 0 && argv[0].len() < 7 ==> control_words(argv, 0, None, Seq::empty())
            == control_words(argv, 1, None, seq![argv[0]]),
{
    reveal_strlit("--socket");
    reveal_strlit("-socket");
    reveal_strlit("--socket=");
    reveal_strlit("-socket=");
    assert("--socket"@.len() == 8 && "-socket"@.len() == 7 && "--socket="@.len() == 9
        && "-socket="@.len() == 8);
    if argv.len() > 0 {
        assert(Seq::<Seq<char>>::empty().push(argv[0]) =~= seq![argv[0]]);
    }
}

/// What a receiver can do is told by three bits of its features, in a fixed order.
pub proof fn law_tags(features: u64)
    ensures
        tags_of(features).contains("screen"@) <==> features & 0x100 != 0,
        tags_of(features).contains("fairplay-sap"@) <==> features & 0x4000 != 0,
        tags_of(features).contains("transient-pair"@) <==> features & 0x8_0000 != 0,
        tags_of(features).len() <= 3,
{
    reveal_strlit("screen");
    reveal_strlit("fairplay-sap");
    reveal_strlit("transient-pair");
    assert("screen"@.len() == 6 && "fairplay-sap"@.len() == 12 && "transient-pair"@.len() == 14);
    let t = tags_of(features);
    let a: int = if features & 0x100 != 0 {
        1
    } else {
        0
    };
    let b: int = if features & 0x4000 != 0 {
        1
    } else {
        0
    };
    if features & 0x100 != 0 {
        assert(t[0] == "screen"@);
    }
    if features & 0x4000 != 0 {
        assert(t[a] == "fairplay-sap"@);
    }
    if features & 0x8_0000 != 0 {
        assert(t[a + b] == "transient-pair"@);
    }
}

/// Words are joined in their order, with a comma and a space between two of them.
pub proof fn law_commas(words: Seq<Seq<char>>, word: Seq<char>)
    ensures
        with_commas(Seq::empty()).len() == 0,
        with_commas(seq![word]) == word,
        words.len() > 0 ==> with_commas(words.push(word)) == with_commas(words) + ", "@ + word,
{
    assert(words.push(word).drop_last() =~= words);
}

/// The line of a receiver names it, its model, its address and what it can do, in this order; a model
/// that is not known is a question mark.
pub proof fn law_line(d: AirPlayDeviceView)
    ensures
        ({
            let start = "\u{2022} "@ + d.name + "  ["@;
            let behind = "]  "@ + d.ip + seq![':'] + decimal_of(d.port as nat) + "  ("@
                + with_commas(tags_of(d.features)) + ")"@;
            &&& d.model.len() > 0 ==> line_of(d) == start + d.model + behind
            &&& d.model.len() == 0 ==> line_of(d) == start + seq!['?'] + behind
        }),
{
    reveal_strlit("?");
    assert("?"@ =~= seq!['?']);
    let start = "\u{2022} "@ + d.name + "  ["@;
    let behind = "]  "@ + d.ip + seq![':'] + decimal_of(d.port as nat) + "  ("@ + with_commas(
        tags_of(d.features),
    ) + ")"@;
    assert(d.ip.push(':') =~= d.ip + seq![':']);
    if d.model.len() > 0 {
        assert(line_of(d) =~= start + d.model + behind);
    } else {
        assert(line_of(d) =~= start + seq!['?'] + behind);
    }
}

} // verus!
