//! What the terminal window writes to its child: encoded keys, the size of
//! the screen, and the child's arguments.

use vstd::prelude::*;

use crate::text::str_eq;

verus! {

/// The keys that have an encoding of their own. Every other key is `Other`.
#[derive(Clone, Copy, Debug, PartialEq, Eq, Structural)]
pub enum Key {
    Enter,
    Escape,
    Backspace,
    Tab,
    ArrowUp,
    ArrowDown,
    ArrowRight,
    ArrowLeft,
    Home,
    End,
    PageUp,
    PageDown,
    Delete,
    Insert,
    F1,
    F2,
    F3,
    F4,
    F5,
    F6,
    F7,
    F8,
    F9,
    F10,
    F11,
    F12,
    Other,
}

/// `ESC [ c`.
pub open spec fn csi_key(c: u8) -> Seq<u8> {
    seq![0x1bu8, 0x5bu8, c]
}

/// `ESC O c`.
pub open spec fn ss3_key(c: u8) -> Seq<u8> {
    seq![0x1bu8, 0x4fu8, c]
}

/// `ESC [ c ~`.
pub open spec fn tilde_key(c: u8) -> Seq<u8> {
    seq![0x1bu8, 0x5bu8, c, 0x7eu8]
}

/// `ESC [ c d ~`.
pub open spec fn tilde_key2(c: u8, d: u8) -> Seq<u8> {
    seq![0x1bu8, 0x5bu8, c, d, 0x7eu8]
}

/// The ANSI bytes of a key.
pub open spec fn key_bytes(key: Key, shift: bool) -> Option<Seq<u8>> {
    match key {
        Key::Enter => Some(seq![0x0du8]),
        Key::Escape => Some(seq![0x1bu8]),
        Key::Backspace => Some(seq![0x7fu8]),
        Key::Tab => if shift { Some(csi_key(0x5a)) } else { Some(seq![0x09u8]) },
        Key::ArrowUp => Some(csi_key(0x41)),
        Key::ArrowDown => Some(csi_key(0x42)),
        Key::ArrowRight => Some(csi_key(0x43)),
        Key::ArrowLeft => Some(csi_key(0x44)),
        Key::Home => Some(csi_key(0x48)),
        Key::End => Some(csi_key(0x46)),
        Key::PageUp => Some(tilde_key(0x35)),
        Key::PageDown => Some(tilde_key(0x36)),
        Key::Delete => Some(tilde_key(0x33)),
        Key::Insert => Some(tilde_key(0x32)),
        Key::F1 => Some(ss3_key(0x50)),
        Key::F2 => Some(ss3_key(0x51)),
        Key::F3 => Some(ss3_key(0x52)),
        Key::F4 => Some(ss3_key(0x53)),
        Key::F5 => Some(tilde_key2(0x31, 0x35)),
        Key::F6 => Some(tilde_key2(0x31, 0x37)),
        Key::F7 => Some(tilde_key2(0x31, 0x38)),
        Key::F8 => Some(tilde_key2(0x31, 0x39)),
        Key::F9 => Some(tilde_key2(0x32, 0x30)),
        Key::F10 => Some(tilde_key2(0x32, 0x31)),
        Key::F11 => Some(tilde_key2(0x32, 0x33)),
        Key::F12 => Some(tilde_key2(0x32, 0x34)),
        Key::Other => None,
    }
}

fn csi_bytes(c: u8) -> (v: Vec<u8>)
    ensures
        v@ == csi_key(c),
{
    vec![0x1b, 0x5b, c]
}

fn ss3_bytes(c: u8) -> (v: Vec<u8>)
    ensures
        v@ == ss3_key(c),
{
    vec![0x1b, 0x4f, c]
}

fn tilde_bytes(c: u8) -> (v: Vec<u8>)
    ensures
        v@ == tilde_key(c),
{
    vec![0x1b, 0x5b, c, 0x7e]
}

fn tilde_bytes2(c: u8, d: u8) -> (v: Vec<u8>)
    ensures
        v@ == tilde_key2(c, d),
{
    vec![0x1b, 0x5b, c, d, 0x7e]
}

/// The view of an optional byte vector.
pub open spec fn opt_bytes(v: Option<Vec<u8>>) -> Option<Seq<u8>> {
    match v {
        Some(b) => Some(b@),
        None => None,
    }
}

/// Encodes a key, with or without shift, as the ANSI bytes written to the
/// child; `None` for a key that has no encoding.
pub fn encode_key(key: Key, shift: bool) -> (bytes: Option<Vec<u8>>)
    ensures
        opt_bytes(bytes) == key_bytes(key, shift),
{
    Some(
        match key {
            Key::Enter => vec![0x0d],
            Key::Escape => vec![0x1b],
            Key::Backspace => vec![0x7f],
            Key::Tab => if shift { csi_bytes(0x5a) } else { vec![0x09] },
            Key::ArrowUp => csi_bytes(0x41),
            Key::ArrowDown => csi_bytes(0x42),
            Key::ArrowRight => csi_bytes(0x43),
            Key::ArrowLeft => csi_bytes(0x44),
            Key::Home => csi_bytes(0x48),
            Key::End => csi_bytes(0x46),
            Key::PageUp => tilde_bytes(0x35),
            Key::PageDown => tilde_bytes(0x36),
            Key::Delete => tilde_bytes(0x33),
            Key::Insert => tilde_bytes(0x32),
            Key::F1 => ss3_bytes(0x50),
            Key::F2 => ss3_bytes(0x51),
            Key::F3 => ss3_bytes(0x52),
            Key::F4 => ss3_bytes(0x53),
            Key::F5 => tilde_bytes2(0x31, 0x35),
            Key::F6 => tilde_bytes2(0x31, 0x37),
            Key::F7 => tilde_bytes2(0x31, 0x38),
            Key::F8 => tilde_bytes2(0x31, 0x39),
            Key::F9 => tilde_bytes2(0x32, 0x30),
            Key::F10 => tilde_bytes2(0x32, 0x31),
            Key::F11 => tilde_bytes2(0x32, 0x33),
            Key::F12 => tilde_bytes2(0x32, 0x34),
            Key::Other => return None,
        },
    )
}

/// One event of the window's input.
#[derive(Debug)]
pub enum InputEvent {
    /// Typed text, as UTF-8.
    Text(Vec<u8>),
    /// A key press. `initial` is the first character of the key's name.
    Key { key: Key, initial: Option<char>, ctrl: bool, shift: bool },
}

/// The control byte of a letter: 1 for `a` or `A`, 26 for `z` or `Z`.
pub open spec fn control_byte(c: char) -> Option<u8> {
    if 'a' <= c <= 'z' {
        Some((c as u8 - 0x60) as u8)
    } else if 'A' <= c <= 'Z' {
        Some((c as u8 - 0x40) as u8)
    } else {
        None
    }
}

/// Ctrl with a letter is a single byte from 1 to 26.
pub fn ctrl_byte(c: char) -> (b: Option<u8>)
    ensures
        b == control_byte(c),
        b matches Some(x) ==> 1 <= x <= 26,
{
    if 'a' <= c && c <= 'z' {
        Some(c as u8 - 0x60)
    } else if 'A' <= c && c <= 'Z' {
        Some(c as u8 - 0x40)
    } else {
        None
    }
}

/// The bytes of one event.
pub open spec fn event_bytes(event: InputEvent) -> Seq<u8> {
    match event {
        InputEvent::Text(t) => t@,
        InputEvent::Key { key, initial, ctrl, shift } => {
            if ctrl && initial is Some && control_byte(initial->0) is Some {
                seq![control_byte(initial->0)->0]
            } else if key_bytes(key, shift) is Some {
                key_bytes(key, shift)->0
            } else {
                Seq::empty()
            }
        },
    }
}

/// The bytes of a run of events.
pub open spec fn input_bytes(events: Seq<InputEvent>) -> Seq<u8>
    decreases events.len(),
{
    if events.len() == 0 {
        Seq::empty()
    } else {
        input_bytes(events.drop_last()) + event_bytes(events.last())
    }
}

/// Encodes the input events of one frame, in order.
pub fn encode_input(events: &Vec<InputEvent>) -> (bytes: Vec<u8>)
    ensures
        bytes@ == input_bytes(events@),
{
    let mut bytes: Vec<u8> = Vec::new();
    for i in 0..events.len()
        invariant
            bytes@ == input_bytes(events@.take(i as int)),
    {
        assert(events@.take(i as int + 1).drop_last() =~= events@.take(i as int));
        match &events[i] {
            InputEvent::Text(t) => {
                for k in 0..t.len()
                    invariant
                        bytes@ =~= input_bytes(events@.take(i as int)) + t@.take(k as int),
                {
                    bytes.push(t[k]);
                }
                assert(t@.take(t@.len() as int) =~= t@);
            },
            InputEvent::Key { key, initial, ctrl, shift } => {
                let control: Option<u8> = match initial {
                    Some(c) => if *ctrl { ctrl_byte(*c) } else { None },
                    None => None,
                };
                match control {
                    Some(b) => {
                        bytes.push(b);
                    },
                    None => {
                        if let Some(mut seq) = encode_key(*key, *shift) {
                            bytes.append(&mut seq);
                        }
                    },
                }
                assert(bytes@ =~= input_bytes(events@.take(i as int)) + event_bytes(events@[i as int]));
            },
        }
    }
    assert(events@.take(events@.len() as int) =~= events@);
    bytes
}

/// The fewest columns that the window opens with.
pub const MIN_START_COLS: u16 = 80;

/// The fewest rows that the window opens with.
pub const MIN_START_ROWS: u16 = 24;

/// The fewest columns that the window can be shrunk to.
pub const MIN_COLS: u16 = 10;

/// The fewest rows that the window can be shrunk to.
pub const MIN_ROWS: u16 = 4;

/// The screen size that the window opens with, given how many columns and
/// rows fit into it.
pub fn start_size(cols: u16, rows: u16) -> (size: (u16, u16))
    ensures
        size.0 == if cols < MIN_START_COLS { MIN_START_COLS } else { cols },
        size.1 == if rows < MIN_START_ROWS { MIN_START_ROWS } else { rows },
{
    (
        if cols < MIN_START_COLS { MIN_START_COLS } else { cols },
        if rows < MIN_START_ROWS { MIN_START_ROWS } else { rows },
    )
}

/// The size that the screen takes when `cols` by `rows` fit into the window;
/// `None` where it is the current one.
pub fn resize_to(current: (u16, u16), cols: u16, rows: u16) -> (size: Option<(u16, u16)>)
    ensures
        ({
            let c = if cols < MIN_COLS { MIN_COLS } else { cols };
            let r = if rows < MIN_ROWS { MIN_ROWS } else { rows };
            size == if (c, r) == current { None } else { Some((c, r)) }
        }),
{
    let c: u16 = if cols < MIN_COLS { MIN_COLS } else { cols };
    let r: u16 = if rows < MIN_ROWS { MIN_ROWS } else { rows };
    if c != current.0 || r != current.1 {
        Some((c, r))
    } else {
        None
    }
}

/// The strings of a vector.
pub open spec fn texts(v: Seq<String>) -> Seq<Seq<char>> {
    Seq::new(v.len(), |i: int| v[i]@)
}

/// The position of the first `--`, or the length where there is none.
pub open spec fn separator(args: Seq<Seq<char>>) -> int
    decreases args.len(),
{
    if args.len() == 0 || args[0] == "--"@ {
        0
    } else {
        1 + separator(args.skip(1))
    }
}

/// The child's arguments: those after the first `--`, and arcade mode where
/// there are none.
pub open spec fn child_args_of(args: Seq<Seq<char>>) -> Seq<Seq<char>> {
    let at = separator(args);
    if at + 1 < args.len() {
        args.skip(at + 1)
    } else {
        seq!["--mode"@, "arcade"@]
    }
}

proof fn lemma_separator(args: Seq<Seq<char>>, i: int)
    requires
        0 <= i <= args.len(),
        forall|k: int| 0 <= k < i ==> #[trigger] args[k] != "--"@,
        i == args.len() || args[i] == "--"@,
    ensures
        separator(args) == i,
    decreases i,
{
    if i > 0 {
        assert(args[0] != "--"@);
        assert forall|k: int| 0 <= k < i - 1 implies #[trigger] args.skip(1)[k] != "--"@ by {
            assert(args.skip(1)[k] == args[k + 1]);
        }
        lemma_separator(args.skip(1), i - 1);
    }
}

/// Picks the child's arguments out of the window's own.
pub fn child_args(args: &Vec<String>) -> (out: Vec<String>)
    ensures
        texts(out@) == child_args_of(texts(args@)),
{
    let n: usize = args.len();
    let mut at: usize = 0;
    while at < n && !str_eq(args[at].as_str(), "--")
        invariant
            at <= n,
            n == args@.len(),
            forall|k: int| 0 <= k < at ==> #[trigger] texts(args@)[k] != "--"@,
        decreases n - at,
    {
        at = at + 1;
    }
    proof {
        lemma_separator(texts(args@), at as int);
    }
    let mut out: Vec<String> = Vec::new();
    if n - at > 1 {
        for i in at + 1..n
            invariant
                at + 1 <= i <= n,
                n == args@.len(),
                texts(out@) == texts(args@).subrange(at + 1, i as int),
        {
            let ghost prev = out@;
            out.push(args[i].clone());
            assert(texts(out@) =~= texts(prev).push(args@[i as int]@));
            assert(texts(args@).subrange(at + 1, i as int + 1) =~= texts(args@).subrange(
                at + 1,
                i as int,
            ).push(texts(args@)[i as int]));
        }
        assert(texts(args@).subrange(at + 1, n as int) =~= texts(args@).skip(at + 1));
    } else {
        out.push("--mode".to_owned());
        out.push("arcade".to_owned());
        assert(texts(out@) =~= seq!["--mode"@, "arcade"@]);
    }
    out
}

/// The bytes that a terminal sends for a key, spelled out: arrows, home and end
/// behind `ESC [`, the first four function keys behind `ESC O`, and the others as
/// a number between `ESC [` and `~`. Only tab tells whether shift is held.
pub proof fn law_keys_send_what_a_terminal_sends(key: Key, shift: bool)
    ensures
        key_bytes(key, shift) == match key {
            Key::Enter => Some(seq![13u8]),
            Key::Escape => Some(seq![27u8]),
            Key::Backspace => Some(seq![127u8]),
            Key::Tab => Some(if shift { seq![27u8, '[' as u8, 'Z' as u8] } else { seq![9u8] }),
            Key::ArrowUp => Some(seq![27u8, '[' as u8, 'A' as u8]),
            Key::ArrowDown => Some(seq![27u8, '[' as u8, 'B' as u8]),
            Key::ArrowRight => Some(seq![27u8, '[' as u8, 'C' as u8]),
            Key::ArrowLeft => Some(seq![27u8, '[' as u8, 'D' as u8]),
            Key::Home => Some(seq![27u8, '[' as u8, 'H' as u8]),
            Key::End => Some(seq![27u8, '[' as u8, 'F' as u8]),
            Key::Insert => Some(seq![27u8, '[' as u8, '2' as u8, '~' as u8]),
            Key::Delete => Some(seq![27u8, '[' as u8, '3' as u8, '~' as u8]),
            Key::PageUp => Some(seq![27u8, '[' as u8, '5' as u8, '~' as u8]),
            Key::PageDown => Some(seq![27u8, '[' as u8, '6' as u8, '~' as u8]),
            Key::F1 => Some(seq![27u8, 'O' as u8, 'P' as u8]),
            Key::F2 => Some(seq![27u8, 'O' as u8, 'Q' as u8]),
            Key::F3 => Some(seq![27u8, 'O' as u8, 'R' as u8]),
            Key::F4 => Some(seq![27u8, 'O' as u8, 'S' as u8]),
            Key::F5 => Some(seq![27u8, '[' as u8, '1' as u8, '5' as u8, '~' as u8]),
            Key::F6 => Some(seq![27u8, '[' as u8, '1' as u8, '7' as u8, '~' as u8]),
            Key::F7 => Some(seq![27u8, '[' as u8, '1' as u8, '8' as u8, '~' as u8]),
            Key::F8 => Some(seq![27u8, '[' as u8, '1' as u8, '9' as u8, '~' as u8]),
            Key::F9 => Some(seq![27u8, '[' as u8, '2' as u8, '0' as u8, '~' as u8]),
            Key::F10 => Some(seq![27u8, '[' as u8, '2' as u8, '1' as u8, '~' as u8]),
            Key::F11 => Some(seq![27u8, '[' as u8, '2' as u8, '3' as u8, '~' as u8]),
            Key::F12 => Some(seq![27u8, '[' as u8, '2' as u8, '4' as u8, '~' as u8]),
            Key::Other => None,
        },
{
}

/// The events of a frame are sent in their order: what two runs of events send, one
/// after the other, is what they send as one, and typed text is sent as it is.
pub proof fn law_input_is_sent_in_order(a: Seq<InputEvent>, b: Seq<InputEvent>, typed: Vec<u8>)
    ensures
        input_bytes(a + b) == input_bytes(a) + input_bytes(b),
        input_bytes(seq![InputEvent::Text(typed)]) == typed@,
    decreases b.len(),
{
    if b.len() == 0 {
        assert(a + b =~= a);
        assert(input_bytes(a) + input_bytes(b) =~= input_bytes(a));
    } else {
        law_input_is_sent_in_order(a, b.drop_last(), typed);
        assert((a + b).drop_last() =~= a + b.drop_last());
        assert((a + b).last() == b.last());
        assert(input_bytes(a + b) =~= input_bytes(a) + input_bytes(b));
    }
    let one = seq![InputEvent::Text(typed)];
    assert(one.drop_last() =~= Seq::<InputEvent>::empty());
    assert(input_bytes(Seq::<InputEvent>::empty()) =~= Seq::<u8>::empty());
    assert(input_bytes(one) =~= typed@);
}

/// Control with a letter sends the letter's number in the alphabet, whether the
/// letter is large or small, and in place of what the key sends by itself; with
/// anything else, or without control, the key sends its own bytes.
pub proof fn law_control_sends_the_number_of_the_letter(
    n: nat,
    key: Key,
    c: char,
    ctrl: bool,
    shift: bool,
)
    requires
        1 <= n <= 26,
    ensures
        control_byte((('a' as int) + n - 1) as char) == Some(n as u8),
        control_byte((('A' as int) + n - 1) as char) == Some(n as u8),
        control_byte(c) is Some <==> 'a' <= c <= 'z' || 'A' <= c <= 'Z',
        ctrl && control_byte(c) is Some ==> event_bytes(
            InputEvent::Key { key, initial: Some(c), ctrl, shift },
        ) == seq![control_byte(c)->0],
        !ctrl || control_byte(c) is None ==> event_bytes(
            InputEvent::Key { key, initial: Some(c), ctrl, shift },
        ) == match key_bytes(key, shift) {
            Some(b) => b,
            None => Seq::<u8>::empty(),
        },
{
}

/// The child gets the arguments behind the first `--`, all of them and in their
/// order; without any it is started in arcade mode.
pub proof fn law_child_gets_what_follows(own: Seq<Seq<char>>, rest: Seq<Seq<char>>)
    requires
        forall|k: int| 0 <= k < own.len() ==> #[trigger] own[k] != "--"@,
    ensures
        rest.len() > 0 ==> child_args_of(own + seq!["--"@] + rest) == rest,
        rest.len() == 0 ==> child_args_of(own + seq!["--"@] + rest) == seq!["--mode"@, "arcade"@],
        child_args_of(own) == seq!["--mode"@, "arcade"@],
{
    let all = own + seq!["--"@] + rest;
    assert forall|k: int| 0 <= k < own.len() implies #[trigger] all[k] != "--"@ by {
        assert(all[k] == own[k]);
    }
    lemma_separator(all, own.len() as int);
    lemma_separator(own, own.len() as int);
    assert(all.skip(own.len() as int + 1) =~= rest);
}

} // verus!
