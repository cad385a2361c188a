//! The command line: `[--pack <dir>]... [--seed <n>] [--save <file>] [--autostart]
//! [--window small|medium|large|huge] [--font <n>] [--ui-scale <hundredths>] [--frame-stats]`,
//! and the dev switches `[--script <steps>] [--screenshot <file>] [--settle <frames>]
//! [--dev-socket <ip:port>] [--no-dev-socket]`. A seed, a script or a capture means an
//! unattended run: it skips the menus and stays in a small window.

use vstd::prelude::*;
use crate::AppConfig;
use crate::creation_menu::same;
use crate::menu::{parse_u64, spec_parse_u64, trim, spec_trim};
use crate::text::push_str;

verus! {

/// A window size the command line can ask for.
#[derive(Debug, Clone, Copy, PartialEq, Eq, Structural)]
pub enum SizeClass {
    /// `small`.
    Small,
    /// `medium`.
    Medium,
    /// `large`.
    Large,
    /// `huge`.
    Huge,
}

/// A window size by its name on the command line.
pub open spec fn spec_size_class(name: Seq<char>) -> Option<SizeClass> {
    if name == "small"@ {
        Some(SizeClass::Small)
    } else if name == "medium"@ {
        Some(SizeClass::Medium)
    } else if name == "large"@ {
        Some(SizeClass::Large)
    } else if name == "huge"@ {
        Some(SizeClass::Huge)
    } else {
        None
    }
}

impl SizeClass {
    /// A window size by its name.
    pub fn parse(name: &str) -> (r: Option<SizeClass>)
        ensures
            r == spec_size_class(name@),
    {
        if same(name, "small") {
            Some(SizeClass::Small)
        } else if same(name, "medium") {
            Some(SizeClass::Medium)
        } else if same(name, "large") {
            Some(SizeClass::Large)
        } else if same(name, "huge") {
            Some(SizeClass::Huge)
        } else {
            None
        }
    }
}

/// The panel look's switches: the font, the interface scale in hundredths, the frame-time
/// report.
#[derive(Debug, Clone, Copy, Default, PartialEq, Eq)]
pub struct Look {
    /// The panel font, by index.
    pub font: usize,
    /// The interface scale in hundredths, if asked for.
    pub scale: Option<u16>,
    /// Report frame times.
    pub frame_stats: bool,
}

/// What to do unattended: script steps, then perhaps a capture.
#[derive(Debug, Clone, Default, PartialEq, Eq)]
pub struct Script {
    /// The script's words in order, each a simulation command word or a shell word.
    pub steps: Vec<String>,
    /// Where to save a capture, then exit.
    pub screenshot: Option<String>,
    /// Frames to wait after the last step before the capture.
    pub settle_frames: u32,
    /// Capture the canvas at its own resolution rather than the window.
    pub canvas: bool,
    /// Capture the canvas and the window composed.
    pub composed: bool,
}

/// The dev socket: on its default loopback address, on another, or off.
#[derive(Debug, Clone, PartialEq, Eq)]
pub enum DevSocket {
    /// Listen on the default address.
    Default,
    /// Listen on this `ip:port`.
    At(String),
    /// No socket.
    Off,
}

/// What the program starts with.
#[derive(Debug, Clone, PartialEq, Eq)]
pub struct Launch {
    /// The packs, the seed, the save file, whether to skip the menus.
    pub config: AppConfig,
    /// What to do unattended.
    pub script: Script,
    /// The dev socket.
    pub socket: DevSocket,
    /// The window size, or none for the whole screen.
    pub window: Option<SizeClass>,
    /// The panel look.
    pub look: Look,
}

/// `steps` with `word` after them when it holds anything.
pub open spec fn spec_push_word(steps: Seq<Seq<char>>, word: Seq<char>) -> Seq<Seq<char>> {
    if word.len() == 0 {
        steps
    } else {
        steps.push(word)
    }
}

/// The words finished and the word begun after reading `text`: a comma ends a word, which
/// is kept trimmed when anything is left of it.
pub open spec fn spec_split_state(text: Seq<char>) -> (Seq<Seq<char>>, Seq<char>)
    decreases text.len(),
{
    if text.len() == 0 {
        (Seq::empty(), Seq::empty())
    } else {
        let (done, cur) = spec_split_state(text.drop_last());
        if text.last() == ',' {
            (spec_push_word(done, spec_trim(cur)), Seq::empty())
        } else {
            (done, cur.push(text.last()))
        }
    }
}

/// A script's steps: its comma-separated words, trimmed, the empty ones dropped.
pub open spec fn spec_steps(text: Seq<char>) -> Seq<Seq<char>> {
    let (done, cur) = spec_split_state(text);
    spec_push_word(done, spec_trim(cur))
}

fn push_word(steps: &mut Vec<String>, word: &str)
    ensures
        spec_texts(final(steps)@) == spec_push_word(spec_texts(old(steps)@), spec_trim(word@)),
{
    let t = trim(word);
    if t.unicode_len() > 0 {
        steps.push(t);
        assert(spec_texts(final(steps)@) =~= spec_texts(old(steps)@).push(spec_trim(word@)));
    }
}

/// A script's steps: its comma-separated words, trimmed, the empty ones dropped.
pub fn script_steps(text: &str) -> (r: Vec<String>)
    ensures
        spec_texts(r@) == spec_steps(text@),
{
    let n = text.unicode_len();
    let mut done: Vec<String> = Vec::new();
    let mut cur = String::new();
    let mut i: usize = 0;
    assert(text@.take(0) =~= Seq::<char>::empty());
    assert(spec_texts(done@) =~= Seq::<Seq<char>>::empty());
    while i < n
        invariant
            i <= n,
            n == text@.len(),
            spec_split_state(text@.take(i as int)) == (spec_texts(done@), cur@),
        decreases n - i,
    {
        let c = text.get_char(i);
        proof {
            let t = text@.take(i + 1);
            assert(t.drop_last() =~= text@.take(i as int));
            assert(t.last() == c);
        }
        if c == ',' {
            push_word(&mut done, cur.as_str());
            cur = String::new();
        } else {
            crate::text::push_char(&mut cur, c);
        }
        i = i + 1;
    }
    assert(text@.take(n as int) =~= text@);
    push_word(&mut done, cur.as_str());
    done
}

/// A text read as an unsigned 32-bit number: as a 64-bit one, and no more than `u32::MAX`.
pub open spec fn spec_parse_u32(s: Seq<char>) -> Option<u32> {
    match spec_parse_u64(s) {
        Some(v) => if v <= 0xFFFF_FFFF {
            Some(v as u32)
        } else {
            None
        },
        None => None,
    }
}

fn parse_u32(text: &str) -> (r: Option<u32>)
    ensures
        r == spec_parse_u32(text@),
{
    match parse_u64(text) {
        Some(v) => if v <= 0xFFFF_FFFF {
            Some(v as u32)
        } else {
            None
        },
        None => None,
    }
}

/// A text read as an unsigned 16-bit number: as a 64-bit one, and no more than `u16::MAX`.
pub open spec fn spec_parse_u16(s: Seq<char>) -> Option<u16> {
    match spec_parse_u64(s) {
        Some(v) => if v <= 0xFFFF {
            Some(v as u16)
        } else {
            None
        },
        None => None,
    }
}

fn parse_u16(text: &str) -> (r: Option<u16>)
    ensures
        r == spec_parse_u16(text@),
{
    match parse_u64(text) {
        Some(v) => if v <= 0xFFFF {
            Some(v as u16)
        } else {
            None
        },
        None => None,
    }
}

/// What the arguments read so far say.
pub struct ArgsRead {
    /// The `--pack` directories, in order.
    pub packs: Seq<Seq<char>>,
    /// The last `--seed`.
    pub seed: Option<u64>,
    /// The last `--save`.
    pub save_path: Option<Seq<char>>,
    /// Whether `--autostart` was given.
    pub autostart: bool,
    /// The last `--window`.
    pub window: Option<SizeClass>,
    /// The last `--font`.
    pub font: usize,
    /// The last `--ui-scale`.
    pub scale: Option<u16>,
    /// Whether `--frame-stats` was given.
    pub frame_stats: bool,
    /// The last `--script`'s steps.
    pub steps: Seq<Seq<char>>,
    /// The last capture's file.
    pub screenshot: Option<Seq<char>>,
    /// Frames to settle before the capture.
    pub settle: u32,
    /// Whether the last capture is of the canvas.
    pub canvas: bool,
    /// Whether the last capture is composed.
    pub composed: bool,
    /// The dev socket: off, on its default address, or on the address given.
    pub socket: Option<Option<Seq<char>>>,
}

/// Nothing read yet.
pub open spec fn spec_nothing_read() -> ArgsRead {
    ArgsRead {
        packs: Seq::empty(),
        seed: None,
        save_path: None,
        autostart: false,
        window: None,
        font: 0,
        scale: None,
        frame_stats: false,
        steps: Seq::empty(),
        screenshot: None,
        settle: 0,
        canvas: false,
        composed: false,
        socket: Some(None),
    }
}

/// The arguments from `i` on read into `st`: each switch takes its value from the next
/// argument; a missing or unreadable value, or an unknown argument, is the error.
pub open spec fn spec_read_args(args: Seq<Seq<char>>, i: int, st: ArgsRead) -> Result<ArgsRead, Seq<char>>
    decreases args.len() - i,
{
    if i < 0 || i >= args.len() {
        Ok(st)
    } else {
        let a = args[i];
        let more = i + 1 < args.len();
        if a == "--pack"@ {
            if more {
                spec_read_args(args, i + 2, ArgsRead { packs: st.packs.push(args[i + 1]), ..st })
            } else {
                Err("--pack needs a directory"@)
            }
        } else if a == "--seed"@ {
            if !more {
                Err("--seed needs a number"@)
            } else {
                match spec_parse_u64(args[i + 1]) {
                    Some(n) => spec_read_args(args, i + 2, ArgsRead { seed: Some(n), ..st }),
                    None => Err("bad seed '"@ + args[i + 1] + "'"@),
                }
            }
        } else if a == "--save"@ {
            if more {
                spec_read_args(args, i + 2, ArgsRead { save_path: Some(args[i + 1]), ..st })
            } else {
                Err("--save needs a file"@)
            }
        } else if a == "--autostart"@ {
            spec_read_args(args, i + 1, ArgsRead { autostart: true, ..st })
        } else if a == "--window"@ {
            if !more {
                Err("--window needs small|medium|large|huge"@)
            } else {
                match spec_size_class(args[i + 1]) {
                    Some(w) => spec_read_args(args, i + 2, ArgsRead { window: Some(w), ..st }),
                    None => Err("bad window size '"@ + args[i + 1] + "': small|medium|large|huge"@),
                }
            }
        } else if a == "--font"@ {
            if !more {
                Err("--font needs 0, 1 or 2"@)
            } else {
                match spec_parse_u16(args[i + 1]) {
                    Some(n) => spec_read_args(args, i + 2, ArgsRead { font: n as usize, ..st }),
                    None => Err("bad --font '"@ + args[i + 1] + "'"@),
                }
            }
        } else if a == "--ui-scale"@ {
            if !more {
                Err("--ui-scale needs hundredths, 50 to 300"@)
            } else {
                match spec_parse_u16(args[i + 1]) {
                    Some(n) => spec_read_args(args, i + 2, ArgsRead { scale: Some(n), ..st }),
                    None => Err("bad --ui-scale '"@ + args[i + 1] + "'"@),
                }
            }
        } else if a == "--frame-stats"@ {
            spec_read_args(args, i + 1, ArgsRead { frame_stats: true, ..st })
        } else if a == "--script"@ {
            if more {
                spec_read_args(args, i + 2, ArgsRead { steps: spec_steps(args[i + 1]), ..st })
            } else {
                Err("--script needs steps"@)
            }
        } else if a == "--screenshot"@ || a == "--screenshot-canvas"@ || a == "--screenshot-composed"@ {
            if more {
                spec_read_args(
                    args,
                    i + 2,
                    ArgsRead {
                        screenshot: Some(args[i + 1]),
                        settle: if st.settle < 30 {
                            30
                        } else {
                            st.settle
                        },
                        canvas: a == "--screenshot-canvas"@,
                        composed: a == "--screenshot-composed"@,
                        ..st
                    },
                )
            } else {
                Err(a + " needs a file"@)
            }
        } else if a == "--dev-socket"@ {
            if more {
                spec_read_args(args, i + 2, ArgsRead { socket: Some(Some(args[i + 1])), ..st })
            } else {
                Err("--dev-socket needs <ip:port>"@)
            }
        } else if a == "--no-dev-socket"@ {
            spec_read_args(args, i + 1, ArgsRead { socket: None, ..st })
        } else if a == "--settle"@ {
            if !more {
                Err("--settle needs a frame count"@)
            } else {
                match spec_parse_u32(args[i + 1]) {
                    Some(n) => spec_read_args(args, i + 2, ArgsRead { settle: n, ..st }),
                    None => Err("bad frame count '"@ + args[i + 1] + "'"@),
                }
            }
        } else {
            Err("unknown argument '"@ + a + "'"@)
        }
    }
}

/// The texts of some arguments.
pub open spec fn spec_texts(args: Seq<String>) -> Seq<Seq<char>> {
    args.map_values(|a: String| a@)
}

/// Whether a launch is what the read arguments make: the packs given or the test pack, the
/// seed given or the entropy, the save file given or the quick save; a seed, script steps or
/// a capture mean an unattended run, which skips the menus and takes a small window when
/// none was asked for.
pub open spec fn spec_launch(l: Launch, st: ArgsRead, entropy: u64) -> bool {
    let seeded = st.seed is Some || st.steps.len() > 0 || st.screenshot is Some;
    &&& spec_texts(l.script.steps@) == st.steps
    &&& match st.screenshot {
        Some(f) => l.script.screenshot matches Some(g) && g@ == f,
        None => l.script.screenshot is None,
    }
    &&& l.script.settle_frames == st.settle
    &&& l.script.canvas == st.canvas
    &&& l.script.composed == st.composed
    &&& match st.socket {
        None => l.socket is Off,
        Some(None) => l.socket is Default,
        Some(Some(a)) => l.socket matches DevSocket::At(b) && b@ == a,
    }
    &&& spec_texts(l.config.packs@) == if st.packs.len() == 0 {
        seq!["packs/test"@]
    } else {
        st.packs
    }
    &&& l.config.seed == match st.seed {
        Some(n) => n,
        None => entropy,
    }
    &&& l.config.save_path@ == match st.save_path {
        Some(p) => p,
        None => ".omnis/quick.ron"@,
    }
    &&& l.config.autostart == (st.autostart || seeded)
    &&& l.window == if seeded && st.window is None {
        Some(SizeClass::Small)
    } else {
        st.window
    }
    &&& l.look == (Look { font: st.font, scale: st.scale, frame_stats: st.frame_stats })
}

/// A quoted value between two texts.
fn quoted(before: &str, value: &str, after: &str) -> (r: String)
    ensures
        r@ == before@ + value@ + after@,
{
    let mut s = before.to_owned();
    push_str(&mut s, value);
    push_str(&mut s, after);
    s
}

/// Read the command line, without the program's name; `entropy` seeds the world when no
/// seed is given.
#[verifier::rlimit(80)]
pub fn parse_args(args: &[String], entropy: u64) -> (r: Result<Launch, String>)
    ensures
        match spec_read_args(spec_texts(args@), 0, spec_nothing_read()) {
            Ok(st) => r matches Ok(l) && spec_launch(l, st, entropy),
            Err(e) => r matches Err(m) && m@ == e,
        },
{
    let ghost texts = spec_texts(args@);
    let mut packs: Vec<String> = Vec::new();
    let mut seed: Option<u64> = None;
    let mut save_path: Option<String> = None;
    let mut autostart = false;
    let mut window: Option<SizeClass> = None;
    let mut look = Look { font: 0, scale: None, frame_stats: false };
    let mut script = Script { steps: Vec::new(), screenshot: None, settle_frames: 0, canvas: false, composed: false };
    let mut socket = DevSocket::Default;
    let mut i: usize = 0;
    proof {
        assert(spec_texts(packs@) =~= Seq::<Seq<char>>::empty());
    }
    while i < args.len()
        invariant
            i <= args@.len(),
            texts == spec_texts(args@),
            spec_read_args(texts, 0, spec_nothing_read()) == spec_read_args(
                texts,
                i as int,
                ArgsRead {
                    packs: spec_texts(packs@),
                    seed,
                    save_path: match save_path {
                        Some(p) => Some(p@),
                        None => None,
                    },
                    autostart,
                    window,
                    font: look.font,
                    scale: look.scale,
                    frame_stats: look.frame_stats,
                    steps: spec_texts(script.steps@),
                    screenshot: match script.screenshot {
                        Some(f) => Some(f@),
                        None => None,
                    },
                    settle: script.settle_frames,
                    canvas: script.canvas,
                    composed: script.composed,
                    socket: match socket {
                        DevSocket::Off => None,
                        DevSocket::Default => Some(None),
                        DevSocket::At(a) => Some(Some(a@)),
                    },
                },
            ),
        decreases args@.len() - i,
    {
        let arg = args[i].as_str();
        let more = i + 1 < args.len();
        proof {
            reveal_strlit("--pack");
        }
        if same(arg, "--pack") {
            if !more {
                return Err("--pack needs a directory".to_owned());
            }
            let ghost before = packs@;
            packs.push(args[i + 1].clone());
            proof {
                assert(spec_texts(packs@) =~= spec_texts(before).push(texts[i + 1]));
            }
            i = i + 2;
        } else if same(arg, "--seed") {
            if !more {
                return Err("--seed needs a number".to_owned());
            }
            match parse_u64(args[i + 1].as_str()) {
                Some(n) => {
                    seed = Some(n);
                },
                None => {
                    return Err(quoted("bad seed '", args[i + 1].as_str(), "'"));
                },
            }
            i = i + 2;
        } else if same(arg, "--save") {
            if !more {
                return Err("--save needs a file".to_owned());
            }
            save_path = Some(args[i + 1].clone());
            i = i + 2;
        } else if same(arg, "--autostart") {
            autostart = true;
            i = i + 1;
        } else if same(arg, "--window") {
            if !more {
                return Err("--window needs small|medium|large|huge".to_owned());
            }
            match SizeClass::parse(args[i + 1].as_str()) {
                Some(w) => {
                    window = Some(w);
                },
                None => {
                    return Err(quoted("bad window size '", args[i + 1].as_str(), "': small|medium|large|huge"));
                },
            }
            i = i + 2;
        } else if same(arg, "--font") {
            if !more {
                return Err("--font needs 0, 1 or 2".to_owned());
            }
            match parse_u16(args[i + 1].as_str()) {
                Some(n) => {
                    look.font = n as usize;
                },
                None => {
                    return Err(quoted("bad --font '", args[i + 1].as_str(), "'"));
                },
            }
            i = i + 2;
        } else if same(arg, "--ui-scale") {
            if !more {
                return Err("--ui-scale needs hundredths, 50 to 300".to_owned());
            }
            match parse_u16(args[i + 1].as_str()) {
                Some(n) => {
                    look.scale = Some(n);
                },
                None => {
                    return Err(quoted("bad --ui-scale '", args[i + 1].as_str(), "'"));
                },
            }
            i = i + 2;
        } else if same(arg, "--frame-stats") {
            look.frame_stats = true;
            i = i + 1;
        } else if same(arg, "--script") {
            if !more {
                return Err("--script needs steps".to_owned());
            }
            script.steps = script_steps(args[i + 1].as_str());
            i = i + 2;
        } else if same(arg, "--screenshot") || same(arg, "--screenshot-canvas") || same(arg, "--screenshot-composed") {
            if !more {
                let mut m = arg.to_owned();
                push_str(&mut m, " needs a file");
                return Err(m);
            }
            script.screenshot = Some(args[i + 1].clone());
            if script.settle_frames < 30 {
                script.settle_frames = 30;
            }
            script.canvas = same(arg, "--screenshot-canvas");
            script.composed = same(arg, "--screenshot-composed");
            i = i + 2;
        } else if same(arg, "--dev-socket") {
            if !more {
                return Err("--dev-socket needs <ip:port>".to_owned());
            }
            socket = DevSocket::At(args[i + 1].clone());
            i = i + 2;
        } else if same(arg, "--no-dev-socket") {
            socket = DevSocket::Off;
            i = i + 1;
        } else if same(arg, "--settle") {
            if !more {
                return Err("--settle needs a frame count".to_owned());
            }
            match parse_u32(args[i + 1].as_str()) {
                Some(n) => {
                    script.settle_frames = n;
                },
                None => {
                    return Err(quoted("bad frame count '", args[i + 1].as_str(), "'"));
                },
            }
            i = i + 2;
        } else {
            return Err(quoted("unknown argument '", arg, "'"));
        }
    }
    let seeded = seed.is_some() || script.steps.len() > 0 || script.screenshot.is_some();
    let mut config = AppConfig::default();
    if packs.len() > 0 {
        config.packs = packs;
    }
    config.seed = match seed {
        Some(n) => n,
        None => entropy,
    };
    match save_path {
        Some(p) => {
            config.save_path = p;
        },
        None => {},
    }
    config.autostart = autostart || seeded;
    if seeded && window.is_none() {
        window = Some(SizeClass::Small);
    }
    proof {
        assert(spec_texts(config.packs@) =~= if spec_texts(packs@).len() == 0 {
            seq!["packs/test"@]
        } else {
            spec_texts(packs@)
        });
    }
    Ok(Launch { config, script, socket, window, look })
}

/// A seed, script steps or a capture make an unattended run: it skips the menus and takes
/// a small window unless one was asked for; without any of them the menus are skipped only
/// on `--autostart` and the window is the one asked for, or the whole screen.
pub proof fn lemma_unattended_runs(l: Launch, st: ArgsRead, entropy: u64)
    requires
        spec_launch(l, st, entropy),
    ensures
        st.seed is Some || st.steps.len() > 0 || st.screenshot is Some ==> l.config.autostart && (
        st.window is None ==> l.window == Some(SizeClass::Small)) && (st.window is Some ==> l.window
            == st.window),
        !(st.seed is Some || st.steps.len() > 0 || st.screenshot is Some) ==> l.config.autostart
            == st.autostart && l.window == st.window,
        st.seed matches Some(n) ==> l.config.seed == n,
        st.seed is None ==> l.config.seed == entropy,
{
}

/// No script step is empty.
pub proof fn lemma_steps_are_words(text: Seq<char>)
    ensures
        forall|k: int| 0 <= k < spec_steps(text).len() ==> #[trigger] spec_steps(text)[k].len() > 0,
{
    lemma_split_words(text);
    let (done, cur) = spec_split_state(text);
    let d2 = spec_steps(text);
    assert forall|k: int| 0 <= k < d2.len() implies #[trigger] d2[k].len() > 0 by {
        if k < done.len() {
            assert(d2[k] == done[k]);
        }
    }
}

proof fn lemma_split_words(text: Seq<char>)
    ensures
        forall|k: int| 0 <= k < spec_split_state(text).0.len() ==> #[trigger] spec_split_state(text).0[k].len() > 0,
    decreases text.len(),
{
    if text.len() > 0 {
        lemma_split_words(text.drop_last());
        let (done, cur) = spec_split_state(text.drop_last());
        let w = spec_trim(cur);
        let d2 = spec_push_word(done, w);
        assert forall|k: int| 0 <= k < d2.len() implies #[trigger] d2[k].len() > 0 by {
            if k < done.len() {
                assert(d2[k] == done[k]);
            }
        }
    }
}

} // verus!
