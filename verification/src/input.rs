//! One frame of keyboard state, as the host reports it.
use vstd::prelude::*;

verus! {

/// A key of the keyboard. A key that carries a character is named by that
/// character in upper case: `Key::Char('A')`, `Key::Char('1')`.
#[derive(Clone, Copy, PartialEq, Eq, Structural, Debug)]
pub enum Key {
    Char(char),
    Space,
    Escape,
    ArrowLeft,
    ArrowRight,
    ArrowUp,
    ArrowDown,
}

/// The keys that went down in this frame, the keys that are held down, and
/// whether shift is held.
#[derive(Debug)]
pub struct Input {
    pub pressed: Vec<Key>,
    pub held: Vec<Key>,
    pub shift: bool,
}

/// The first character with a code from `from` up to but not including
/// `until`, in rising order, whose key went down in this frame.
pub open spec fn first_pressed_from(input: Input, from: int, until: int) -> Option<char>
    decreases until - from,
{
    if from >= until {
        None
    } else if input.is_pressed(Key::Char(from as char)) {
        Some(from as char)
    } else {
        first_pressed_from(input, from + 1, until)
    }
}

fn contains_key(keys: &Vec<Key>, key: Key) -> (found: bool)
    ensures
        found == keys@.contains(key),
{
    let mut i: usize = 0;
    while i < keys.len()
        invariant
            i <= keys.len(),
            forall|j: int| 0 <= j < i ==> keys@[j] != key,
        decreases keys.len() - i,
    {
        if keys[i] == key {
            return true;
        }
        i += 1;
    }
    false
}

fn first_pressed(input: &Input, from: u8, until: u8) -> (found: Option<char>)
    requires
        from <= until,
    ensures
        found == first_pressed_from(*input, from as int, until as int),
{
    let mut code: u8 = from;
    while code < until
        invariant
            from <= code <= until,
            first_pressed_from(*input, from as int, until as int) == first_pressed_from(
                *input,
                code as int,
                until as int,
            ),
        decreases until - code,
    {
        let c: char = code as char;
        if input.key_pressed(Key::Char(c)) {
            return Some(c);
        }
        code += 1;
    }
    None
}

impl Input {
    /// A frame in which no key went down and none is held.
    pub fn new() -> (input: Input)
        ensures
            input.pressed@ == Seq::<Key>::empty(),
            input.held@ == Seq::<Key>::empty(),
            !input.shift,
    {
        Input { pressed: Vec::new(), held: Vec::new(), shift: false }
    }

    /// Whether `key` went down in this frame.
    pub open spec fn is_pressed(&self, key: Key) -> bool {
        self.pressed@.contains(key)
    }

    /// Whether `key` is held down.
    pub open spec fn is_down(&self, key: Key) -> bool {
        self.held@.contains(key)
    }

    /// The letter that is honoured in this frame: of the letters `A`..=`Z`
    /// whose keys went down, the first in alphabetical order.
    pub open spec fn spec_pressed_letter(&self) -> Option<char> {
        first_pressed_from(*self, 'A' as int, 'Z' as int + 1)
    }

    /// The digit that is honoured in this frame: of the digits `1`..=`9`
    /// whose keys went down, the lowest.
    pub open spec fn spec_pressed_digit(&self) -> Option<char> {
        first_pressed_from(*self, '1' as int, '9' as int + 1)
    }

    /// Whether `key` went down in this frame.
    pub fn key_pressed(&self, key: Key) -> (pressed: bool)
        ensures
            pressed == self.is_pressed(key),
    {
        contains_key(&self.pressed, key)
    }

    /// Whether `key` is held down.
    pub fn key_down(&self, key: Key) -> (down: bool)
        ensures
            down == self.is_down(key),
    {
        contains_key(&self.held, key)
    }

    /// The letter that is honoured in this frame.
    pub fn pressed_letter(&self) -> (letter: Option<char>)
        ensures
            letter == self.spec_pressed_letter(),
    {
        first_pressed(self, 'A' as u8, 'Z' as u8 + 1)
    }

    /// The digit that is honoured in this frame.
    pub fn pressed_digit(&self) -> (digit: Option<char>)
        ensures
            digit == self.spec_pressed_digit(),
    {
        first_pressed(self, '1' as u8, '9' as u8 + 1)
    }
}

/// What a scan finds is pressed and lies in the scanned range, and nothing
/// before it in the range is pressed; it finds nothing only where nothing in
/// the range is pressed.
proof fn lemma_first_pressed_is_least(input: Input, from: int, until: int)
    requires
        0 <= from <= until <= 0xD800,
    ensures
        match first_pressed_from(input, from, until) {
            Some(c) => {
                &&& from <= (c as int) && (c as int) < until
                &&& input.is_pressed(Key::Char(c))
                &&& forall|d: char|
                    from <= (d as int) && (d as int) < (c as int) ==> !input.is_pressed(
                        Key::Char(d),
                    )
            },
            None => forall|d: char|
                from <= (d as int) && (d as int) < until ==> !input.is_pressed(Key::Char(d)),
        },
    decreases until - from,
{
    if from < until && !input.is_pressed(Key::Char(from as char)) {
        lemma_first_pressed_is_least(input, from + 1, until);
    }
}

/// The letter honoured in a frame is a capital letter whose key went down,
/// and no letter before it in the alphabet went down; none is honoured only
/// where no letter went down. The same holds of the digits from 1 to 9.
pub proof fn lemma_scan_order(input: Input)
    ensures
        match input.spec_pressed_letter() {
            Some(c) => {
                &&& 'A' <= c <= 'Z'
                &&& input.is_pressed(Key::Char(c))
                &&& forall|d: char| 'A' <= d < c ==> !input.is_pressed(Key::Char(d))
            },
            None => forall|d: char| 'A' <= d <= 'Z' ==> !input.is_pressed(Key::Char(d)),
        },
        match input.spec_pressed_digit() {
            Some(c) => {
                &&& '1' <= c <= '9'
                &&& input.is_pressed(Key::Char(c))
                &&& forall|d: char| '1' <= d < c ==> !input.is_pressed(Key::Char(d))
            },
            None => forall|d: char| '1' <= d <= '9' ==> !input.is_pressed(Key::Char(d)),
        },
{
    lemma_first_pressed_is_least(input, 'A' as int, 'Z' as int + 1);
    lemma_first_pressed_is_least(input, '1' as int, '9' as int + 1);
}

} // verus!
