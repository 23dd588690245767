use crate::event::InputDeviceInfo;
use std::rc::Rc;
use vstd::prelude::*;

verus! {

/// What the main loop must do after a round of events.
#[derive(Debug)]
pub enum MainAction {
    Exit,
    ReloadConfig,
    RemoveDevice(Rc<InputDeviceInfo>),
}

/// What the remapper watches for changes.
#[derive(Clone, Copy, Debug, PartialEq, Eq, Structural)]
pub enum WatchTargets {
    /// add new devices automatically
    Device,
    /// reload the config automatically
    Config,
}

/// Whether `target` is among `targets`.
pub fn watches(targets: &Vec<WatchTargets>, target: WatchTargets) -> (r: bool)
    ensures
        r == targets@.contains(target),
{
    let mut i: usize = 0;
    while i < targets.len()
        invariant
            i <= targets.len(),
            forall|j: int| 0 <= j < i ==> targets@[j] != target,
        decreases targets.len() - i,
    {
        if targets[i] == target {
            assert(targets@[i as int] == target);
            return true;
        }
        i = i + 1;
    }
    false
}

/// Watches the configuration files; on this platform there is no such watch,
/// so none is ever made.
#[derive(Debug)]
pub struct ConfigWatcher {}

impl ConfigWatcher {
    /// No watcher, whatever is asked: the caller tells the user when `watch`
    /// was asked for.
    pub fn new(watch: bool, files: Vec<String>, debounce_ms: u64) -> (r: Option<ConfigWatcher>)
        ensures
            r is None,
    {
        None
    }
}

} // verus!

verus! {

/// `s` with every leading `0x` taken off.
pub open spec fn strip_hex_prefix(s: Seq<u8>) -> Seq<u8>
    decreases s.len(),
{
    if s.len() >= 2 && s[0] == 48u8 && s[1] == 120u8 {
        strip_hex_prefix(s.skip(2))
    } else {
        s
    }
}

/// The value of a hexadecimal digit (`0`-`9`, `a`-`f`, `A`-`F`).
pub open spec fn hex_digit(b: u8) -> Option<nat> {
    if 48 <= b <= 57 {
        Some((b - 48) as nat)
    } else if 97 <= b <= 102 {
        Some((b - 87) as nat)
    } else if 65 <= b <= 70 {
        Some((b - 55) as nat)
    } else {
        None
    }
}

/// The number that the hexadecimal digits `s` stand for; `None` when one of
/// them is no digit.
pub open spec fn hex_value(s: Seq<u8>) -> Option<nat>
    decreases s.len(),
{
    if s.len() == 0 {
        Some(0)
    } else {
        match (hex_value(s.drop_last()), hex_digit(s.last())) {
            (Some(v), Some(d)) => Some(v * 16 + d),
            _ => None,
        }
    }
}

/// The 16-bit number that the text `s` writes in hexadecimal, after any
/// leading `0x` and an optional `+`: `None` when there are no digits, a
/// character is no digit, or the number is too large.
pub open spec fn parse_hex_u16(s: Seq<u8>) -> Option<u16> {
    let t = strip_hex_prefix(s);
    let d = if t.len() > 0 && t[0] == 43u8 {
        t.skip(1)
    } else {
        t
    };
    if d.len() == 0 {
        None
    } else {
        match hex_value(d) {
            Some(v) => if v <= 0xffff {
                Some(v as u16)
            } else {
                None
            },
            None => None,
        }
    }
}

proof fn lemma_hex_prefix(s: Seq<u8>, k: int)
    requires
        0 <= k <= s.len(),
        hex_value(s) is Some,
    ensures
        hex_value(s.take(k)) is Some,
        hex_value(s.take(k))->Some_0 <= hex_value(s)->Some_0,
    decreases s.len(),
{
    if k < s.len() {
        assert(s.drop_last().take(k) =~= s.take(k));
        lemma_hex_prefix(s.drop_last(), k);
    } else {
        assert(s.take(k) =~= s);
    }
}

/// The vendor or product number of the output device given as `text`
/// (hexadecimal, as `parse_hex_u16` reads it), or `default` when `text` does
/// not give one.
pub fn parse_device_id(text: &Vec<u8>, default: u16) -> (r: u16)
    ensures
        r == match parse_hex_u16(text@) {
            Some(v) => v,
            None => default,
        },
{
    let n = text.len();
    let mut i: usize = 0;
    assert(text@.skip(0) =~= text@);
    while n - i >= 2 && text[i] == 48u8 && text[i + 1] == 120u8
        invariant
            i <= n,
            n == text@.len(),
            strip_hex_prefix(text@) == strip_hex_prefix(text@.skip(i as int)),
        decreases n - i,
    {
        proof {
            assert(text@.skip(i as int).skip(2) =~= text@.skip(i + 2));
        }
        i = i + 2;
    }
    let ghost t = text@.skip(i as int);
    assert(strip_hex_prefix(t) == t);
    if i < n && text[i] == 43u8 {
        i = i + 1;
    }
    let ghost d = text@.skip(i as int);
    proof {
        if t.len() > 0 && t[0] == 43u8 {
            assert(d =~= t.skip(1));
        } else {
            assert(d =~= t);
        }
    }
    if i >= n {
        return default;
    }
    assert(strip_hex_prefix(text@) == t);
    assert(d.len() > 0);
    let ghost expected: Option<u16> = match hex_value(d) {
        Some(v) => if v <= 0xffff {
            Some(v as u16)
        } else {
            None
        },
        None => None,
    };
    assert(parse_hex_u16(text@) == expected);
    let start = i;
    let mut acc: u32 = 0;
    while i < n
        invariant
            start <= i <= n,
            parse_hex_u16(text@) == expected,
            expected == match hex_value(d) {
                Some(v) => if v <= 0xffff {
                    Some(v as u16)
                } else {
                    None
                },
                None => None,
            },
            n == text@.len(),
            d == text@.skip(start as int),
            hex_value(d.take(i - start)) == Some(acc as nat),
            acc <= 0xffff,
        decreases n - i,
    {
        let b = text[i];
        let digit: u32 = if 48 <= b && b <= 57 {
            (b - 48) as u32
        } else if 97 <= b && b <= 102 {
            (b - 87) as u32
        } else if 65 <= b && b <= 70 {
            (b - 55) as u32
        } else {
            proof {
                assert(d.take(i - start + 1).drop_last() =~= d.take(i - start));
                assert(hex_value(d.take(i - start + 1)) is None);
                if hex_value(d) is Some {
                    lemma_hex_prefix(d, i - start + 1);
                }
            }
            return default;
        };
        proof {
            assert(d.take(i - start + 1).drop_last() =~= d.take(i - start));
            assert(d.take(i - start + 1).last() == b);
        }
        acc = acc * 16 + digit;
        if acc > 0xffff {
            proof {
                if hex_value(d) is Some {
                    lemma_hex_prefix(d, i - start + 1);
                }
            }
            return default;
        }
        i = i + 1;
    }
    proof {
        assert(d.take(i - start) =~= d);
    }
    acc as u16
}

} // verus!
