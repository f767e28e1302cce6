//! The log lines the systems write.

use vstd::prelude::*;

verus! {

pub open spec fn digit_char(d: int) -> char {
    if d == 0 {
        '0'
    } else if d == 1 {
        '1'
    } else if d == 2 {
        '2'
    } else if d == 3 {
        '3'
    } else if d == 4 {
        '4'
    } else if d == 5 {
        '5'
    } else if d == 6 {
        '6'
    } else if d == 7 {
        '7'
    } else if d == 8 {
        '8'
    } else {
        '9'
    }
}

/// The decimal digits of `n`, without leading zeros.
pub open spec fn digits(n: nat) -> Seq<char>
    decreases n,
{
    if n < 10 {
        seq![digit_char(n as int)]
    } else {
        digits(n / 10).push(digit_char((n % 10) as int))
    }
}

/// `n` written in decimal, with a leading minus sign when negative.
pub open spec fn decimal(n: int) -> Seq<char> {
    if n < 0 {
        seq!['-'] + digits((-n) as nat)
    } else {
        digits(n as nat)
    }
}

fn digit_text(d: u32) -> (r: &'static str)
    requires
        d < 10,
    ensures
        r@ == seq![digit_char(d as int)],
{
    proof {
        reveal_strlit("0");
        reveal_strlit("1");
        reveal_strlit("2");
        reveal_strlit("3");
        reveal_strlit("4");
        reveal_strlit("5");
        reveal_strlit("6");
        reveal_strlit("7");
        reveal_strlit("8");
        reveal_strlit("9");
    }
    if d == 0 {
        "0"
    } else if d == 1 {
        "1"
    } else if d == 2 {
        "2"
    } else if d == 3 {
        "3"
    } else if d == 4 {
        "4"
    } else if d == 5 {
        "5"
    } else if d == 6 {
        "6"
    } else if d == 7 {
        "7"
    } else if d == 8 {
        "8"
    } else {
        "9"
    }
}

/// The decimal digits of `n`.
fn digits_text(n: u32) -> (r: String)
    ensures
        r@ == digits(n as nat),
    decreases n,
{
    let mut s = if n < 10 {
        String::new()
    } else {
        digits_text(n / 10)
    };
    s.append(digit_text(n % 10));
    proof {
        if n < 10 {
            assert(s@ =~= digits(n as nat));
        } else {
            assert(s@ =~= digits((n / 10) as nat).push(digit_char((n % 10) as int)));
        }
    }
    s
}

/// `n` in decimal, with a leading minus sign when negative.
pub fn int_to_string(n: i32) -> (r: String)
    ensures
        r@ == decimal(n as int),
{
    if n < 0 {
        let m = (-(n as i64)) as u32;
        let mut s = String::from_str("-");
        proof {
            reveal_strlit("-");
        }
        let d = digits_text(m);
        s.append(d.as_str());
        proof {
            assert(s@ =~= decimal(n as int));
        }
        s
    } else {
        digits_text(n as u32)
    }
}

pub open spec fn attack_message(attacker: Seq<char>, target: Seq<char>, damage: int) -> Seq<char> {
    attacker + " attacked "@ + target + " for "@ + decimal(damage) + " dmg."@
}

pub open spec fn slain_message(target: Seq<char>) -> Seq<char> {
    target + " has been slain."@
}

/// "<attacker> attacked <target> for <damage> dmg."
pub fn attack_text(attacker: &String, target: &String, damage: i32) -> (r: String)
    ensures
        r@ == attack_message(attacker@, target@, damage as int),
{
    let mut msg = attacker.clone();
    msg.append(" attacked ");
    msg.append(target.as_str());
    msg.append(" for ");
    let d = int_to_string(damage);
    msg.append(d.as_str());
    msg.append(" dmg.");
    msg
}

/// "<target> has been slain."
pub fn slain_text(target: &String) -> (r: String)
    ensures
        r@ == slain_message(target@),
{
    let mut msg = target.clone();
    msg.append(" has been slain.");
    msg
}

/// The name combat takes for the player.
pub open spec fn player_name() -> Seq<char> {
    "Player"@
}

pub fn player_name_text() -> (r: String)
    ensures
        r@ == player_name(),
{
    String::from_str("Player")
}

} // verus!
