use vstd::prelude::*;
use vstd::string::*;

verus! {

/// Base of mate scores: a mate at ply P scores MATE - P.
pub const MATE: i32 = 30000;

/// Search infinity for ordinary (non-mate) evaluations.
pub const INF: i32 = 29000;

/// Scores at or beyond this magnitude are mate scores.
pub const MATE_IN_MAX: i32 = 29488;

/// Plies of room between MATE and MATE_IN_MAX.
pub const MAX_PLY: i32 = 512;

pub open spec fn clamp_spec(s: int) -> int {
    if s < -INF {
        -INF as int
    } else if s > INF {
        INF as int
    } else {
        s
    }
}

pub fn clamp_eval(s: i32) -> (r: i32)
    ensures
        r == clamp_spec(s as int),
{
    if s < -INF {
        -INF
    } else if s > INF {
        INF
    } else {
        s
    }
}

pub open spec fn mate_score_spec(s: int) -> bool {
    s >= MATE_IN_MAX || s <= -MATE_IN_MAX
}

pub fn is_mate_score(s: i32) -> (r: bool)
    ensures
        r == mate_score_spec(s as int),
{
    s >= MATE_IN_MAX || s <= -MATE_IN_MAX
}

pub open spec fn mate_store_spec(s: int, ply: int) -> int {
    if s > MATE_IN_MAX {
        s + ply
    } else if s < -MATE_IN_MAX {
        s - ply
    } else {
        s
    }
}

pub open spec fn mate_load_spec(s: int, ply: int) -> int {
    if s > MATE_IN_MAX {
        s - ply
    } else if s < -MATE_IN_MAX {
        s + ply
    } else {
        s
    }
}

/// Converts a ply-relative score into the root-relative form kept in the table.
pub fn mate_store(s: i32, ply: i32) -> (r: i32)
    requires
        -MATE <= s <= MATE,
        0 <= ply <= MAX_PLY,
    ensures
        r == mate_store_spec(s as int, ply as int),
{
    if s > MATE_IN_MAX {
        s + ply
    } else if s < -MATE_IN_MAX {
        s - ply
    } else {
        s
    }
}

/// Converts a stored score back to the ply at which it is probed.
pub fn mate_load(s: i32, ply: i32) -> (r: i32)
    requires
        -(MATE + MAX_PLY) <= s <= MATE + MAX_PLY,
        0 <= ply <= MAX_PLY,
    ensures
        r == mate_load_spec(s as int, ply as int),
{
    if s > MATE_IN_MAX {
        s - ply
    } else if s < -MATE_IN_MAX {
        s + ply
    } else {
        s
    }
}

/// A score stored at some ply and loaded back at that ply is unchanged, and a
/// mate score keeps its side of the mate threshold while stored.
pub proof fn lemma_mate_round_trip(s: int, ply: int)
    requires
        -MATE <= s <= MATE,
        0 <= ply <= MAX_PLY,
    ensures
        mate_load_spec(mate_store_spec(s, ply), ply) == s,
        mate_score_spec(s) ==> mate_score_spec(mate_store_spec(s, ply)),
        -(MATE + MAX_PLY) <= mate_store_spec(s, ply) <= MATE + MAX_PLY,
{
}

pub open spec fn digit_char(d: int) -> char {
    if d == 0 {
        '0'
    } else if d == 1 {
        '1'
    } else if d == 2 {
        '2'
    } else if d == 3 {
        '3'
    } else if d == 4 {
        '4'
    } else if d == 5 {
        '5'
    } else if d == 6 {
        '6'
    } else if d == 7 {
        '7'
    } else if d == 8 {
        '8'
    } else {
        '9'
    }
}

/// Decimal digits of a natural number, most significant first.
pub open spec fn decimal(n: nat) -> Seq<char>
    decreases n,
{
    if n < 10 {
        seq![digit_char(n as int)]
    } else {
        decimal(n / 10) + seq![digit_char((n % 10) as int)]
    }
}

/// Decimal text of an integer, with a leading '-' when negative.
pub open spec fn signed_decimal(n: int) -> Seq<char> {
    if n < 0 {
        seq!['-'] + decimal((-n) as nat)
    } else {
        decimal(n as nat)
    }
}

fn digit_str(d: u32) -> (r: &'static str)
    requires
        d < 10,
    ensures
        r@ == seq![digit_char(d as int)],
{
    if d == 0 {
        proof {
            reveal_strlit("0");
        }
        "0"
    } else if d == 1 {
        proof {
            reveal_strlit("1");
        }
        "1"
    } else if d == 2 {
        proof {
            reveal_strlit("2");
        }
        "2"
    } else if d == 3 {
        proof {
            reveal_strlit("3");
        }
        "3"
    } else if d == 4 {
        proof {
            reveal_strlit("4");
        }
        "4"
    } else if d == 5 {
        proof {
            reveal_strlit("5");
        }
        "5"
    } else if d == 6 {
        proof {
            reveal_strlit("6");
        }
        "6"
    } else if d == 7 {
        proof {
            reveal_strlit("7");
        }
        "7"
    } else if d == 8 {
        proof {
            reveal_strlit("8");
        }
        "8"
    } else {
        proof {
            reveal_strlit("9");
        }
        "9"
    }
}

/// Appends the decimal digits of `n`.
pub fn push_decimal(s: &mut String, n: u32)
    ensures
        final(s)@ == old(s)@ + decimal(n as nat),
    decreases n,
{
    if n >= 10 {
        push_decimal(s, n / 10);
    }
    s.append(digit_str(n % 10));
    proof {
        if n >= 10 {
            assert(decimal(n as nat) == decimal((n / 10) as nat) + seq![digit_char((n % 10) as int)]);
        }
        assert(final(s)@ =~= old(s)@ + decimal(n as nat));
    }
}

/// The protocol text of a score: "mate K" / "mate -K" in moves for mate
/// scores, else "cp N".
pub open spec fn uci_score_text(s: int) -> Seq<char> {
    let c = if s < -MATE {
        -MATE as int
    } else if s > MATE {
        MATE as int
    } else {
        s
    };
    if mate_score_spec(c) {
        let a = if c < 0 {
            -c
        } else {
            c
        };
        let moves = ((MATE - a + 1) / 2) as nat;
        if c > 0 {
            seq!['m', 'a', 't', 'e', ' '] + decimal(moves)
        } else {
            seq!['m', 'a', 't', 'e', ' ', '-'] + decimal(moves)
        }
    } else {
        seq!['c', 'p', ' '] + signed_decimal(c)
    }
}

pub fn to_uci_score(s: i32) -> (r: String)
    ensures
        r@ == uci_score_text(s as int),
{
    let c = if s < -MATE {
        -MATE
    } else if s > MATE {
        MATE
    } else {
        s
    };
    if is_mate_score(c) {
        let a = if c < 0 {
            -c
        } else {
            c
        };
        let moves = ((MATE - a + 1) / 2) as u32;
        let mut out = if c > 0 {
            proof {
                reveal_strlit("mate ");
            }
            String::from_str("mate ")
        } else {
            proof {
                reveal_strlit("mate -");
            }
            String::from_str("mate -")
        };
        push_decimal(&mut out, moves);
        out
    } else {
        proof {
            reveal_strlit("cp ");
            reveal_strlit("cp -");
        }
        let mut out = if c < 0 {
            String::from_str("cp -")
        } else {
            String::from_str("cp ")
        };
        let a = if c < 0 {
            -c
        } else {
            c
        };
        push_decimal(&mut out, a as u32);
        proof {
            assert(out@ =~= uci_score_text(s as int));
        }
        out
    }
}

} // verus!
