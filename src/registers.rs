use vstd::prelude::*;

verus! {

pub open spec fn is_digit(c: char) -> bool {
    '0' <= c <= '9'
}

pub open spec fn digit_value(c: char) -> nat {
    (c as u32 - '0' as u32) as nat
}

/// A number of one or two decimal digits written without a leading zero.
pub open spec fn small_decimal(s: Seq<char>) -> Option<nat> {
    if s.len() == 1 && is_digit(s[0]) {
        Some(digit_value(s[0]))
    } else if s.len() == 2 && is_digit(s[0]) && s[0] != '0' && is_digit(s[1]) {
        Some(10 * digit_value(s[0]) + digit_value(s[1]))
    } else {
        None
    }
}

/// Index of the register a name denotes: `x0`..`x31` or one of the ABI
/// aliases `zero`, `ra`, `sp`, `gp`, `tp`, `t0`..`t6`, `s0`..`s11`, `fp`,
/// `a0`..`a7`.
pub open spec fn register_index(name: Seq<char>) -> Option<nat> {
    if name == seq!['z', 'e', 'r', 'o'] {
        Some(0)
    } else if name == seq!['r', 'a'] {
        Some(1)
    } else if name == seq!['s', 'p'] {
        Some(2)
    } else if name == seq!['g', 'p'] {
        Some(3)
    } else if name == seq!['t', 'p'] {
        Some(4)
    } else if name == seq!['f', 'p'] {
        Some(8)
    } else if name.len() < 2 {
        None
    } else {
        match small_decimal(name.drop_first()) {
            None => None,
            Some(k) => {
                let p = name[0];
                if p == 'x' && k < 32 {
                    Some(k)
                } else if p == 't' && k <= 2 {
                    Some(5 + k)
                } else if p == 't' && 3 <= k <= 6 {
                    Some(25 + k)
                } else if p == 's' && k <= 1 {
                    Some(8 + k)
                } else if p == 's' && 2 <= k <= 11 {
                    Some(16 + k)
                } else if p == 'a' && k <= 7 {
                    Some(10 + k)
                } else {
                    None
                }
            },
        }
    }
}

fn is_pair(s: &[char], a: char, b: char) -> (r: bool)
    ensures
        r == (s@ == seq![a, b]),
{
    if s.len() == 2 && s[0] == a && s[1] == b {
        assert(s@ == seq![a, b]);
        true
    } else {
        false
    }
}

fn small_decimal_of(s: &[char], from: usize) -> (r: Option<u32>)
    requires
        from <= s@.len(),
    ensures
        match small_decimal(s@.skip(from as int)) {
            None => r is None,
            Some(k) => r == Some(k as u32),
        },
{
    let ghost t = s@.skip(from as int);
    let n = s.len() - from;
    if n == 1 && '0' <= s[from] && s[from] <= '9' {
        assert(t[0] == s@[from as int]);
        Some(s[from] as u32 - '0' as u32)
    } else if n == 2 && '0' <= s[from] && s[from] <= '9' && s[from] != '0' && '0' <= s[from + 1]
        && s[from + 1] <= '9' {
        assert(t[0] == s@[from as int] && t[1] == s@[from + 1]);
        Some(10 * (s[from] as u32 - '0' as u32) + (s[from + 1] as u32 - '0' as u32))
    } else {
        proof {
            if n == 1 {
                assert(t[0] == s@[from as int]);
            }
            if n == 2 {
                assert(t[0] == s@[from as int] && t[1] == s@[from + 1]);
            }
        }
        None
    }
}

/// Looks up a register name; see `register_index`.
pub fn register_number(name: &[char]) -> (r: Option<usize>)
    ensures
        match register_index(name@) {
            None => r is None,
            Some(k) => r == Some(k as usize),
        },
{
    if name.len() == 4 && name[0] == 'z' && name[1] == 'e' && name[2] == 'r' && name[3] == 'o' {
        assert(name@ == seq!['z', 'e', 'r', 'o']);
        return Some(0);
    }
    if is_pair(name, 'r', 'a') {
        return Some(1);
    }
    if is_pair(name, 's', 'p') {
        return Some(2);
    }
    if is_pair(name, 'g', 'p') {
        return Some(3);
    }
    if is_pair(name, 't', 'p') {
        return Some(4);
    }
    if is_pair(name, 'f', 'p') {
        return Some(8);
    }
    if name.len() < 2 {
        return None;
    }
    assert(name@.drop_first() == name@.skip(1));
    let k = match small_decimal_of(name, 1) {
        None => {
            return None;
        },
        Some(k) => k as usize,
    };
    let p = name[0];
    if p == 'x' && k < 32 {
        Some(k)
    } else if p == 't' && k <= 2 {
        Some(5 + k)
    } else if p == 't' && 3 <= k && k <= 6 {
        Some(25 + k)
    } else if p == 's' && k <= 1 {
        Some(8 + k)
    } else if p == 's' && 2 <= k && k <= 11 {
        Some(16 + k)
    } else if p == 'a' && k <= 7 {
        Some(10 + k)
    } else {
        None
    }
}

} // verus!
