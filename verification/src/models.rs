//! Addresses, 256-bit integers and the bridge events built from them.

use vstd::prelude::*;

verus! {

/// A 20-byte account or contract address.
#[derive(Clone, Copy, Debug, PartialEq, Eq)]
pub struct Address {
    pub bytes: [u8; 20],
}

/// An unsigned 256-bit integer, least significant limb first.
#[derive(Clone, Copy, Debug, PartialEq, Eq)]
pub struct U256 {
    pub limbs: [u64; 4],
}

/// Emitted by a bridge contract when a user locks funds for delivery on the other chain.
#[derive(Clone, Copy, Debug, PartialEq, Eq)]
pub struct DepositEvent {
    pub token: Address,
    pub from: Address,
    pub to: Address,
    pub amount: U256,
    pub nonce: U256,
}

/// Emitted by a bridge contract when funds are released to a recipient.
#[derive(Clone, Copy, Debug, PartialEq, Eq)]
pub struct DistributionEvent {
    pub token: Address,
    pub to: Address,
    pub amount: U256,
    pub nonce: U256,
}

/// The fields of a stored deposit, as the store keeps them.
#[derive(Clone, Debug, PartialEq, Eq)]
pub struct DepositDetails {
    pub token: String,
    pub from: String,
    pub to: String,
    pub amount: i64,
    pub nonce: i64,
}

/// Mathematical content of a [`DepositDetails`].
pub struct DepositDetailsView {
    pub token: Seq<char>,
    pub from: Seq<char>,
    pub to: Seq<char>,
    pub amount: int,
    pub nonce: int,
}

impl View for DepositDetails {
    type V = DepositDetailsView;

    open spec fn view(&self) -> DepositDetailsView {
        DepositDetailsView {
            token: self.token@,
            from: self.from@,
            to: self.to@,
            amount: self.amount as int,
            nonce: self.nonce as int,
        }
    }
}

/// The lowercase hexadecimal digit of a value below sixteen.
pub open spec fn hex_digit(n: int) -> char {
    if n == 0 {
        '0'
    } else if n == 1 {
        '1'
    } else if n == 2 {
        '2'
    } else if n == 3 {
        '3'
    } else if n == 4 {
        '4'
    } else if n == 5 {
        '5'
    } else if n == 6 {
        '6'
    } else if n == 7 {
        '7'
    } else if n == 8 {
        '8'
    } else if n == 9 {
        '9'
    } else if n == 10 {
        'a'
    } else if n == 11 {
        'b'
    } else if n == 12 {
        'c'
    } else if n == 13 {
        'd'
    } else if n == 14 {
        'e'
    } else {
        'f'
    }
}

/// The digits of `bytes`, two per byte, high nibble first.
pub open spec fn hex_digits(bytes: Seq<u8>) -> Seq<char> {
    Seq::new(
        2 * bytes.len(),
        |i: int|
            if i % 2 == 0 {
                hex_digit(bytes[i / 2] as int / 16)
            } else {
                hex_digit(bytes[i / 2] as int % 16)
            },
    )
}

/// The text form of an address: `0x` followed by forty lowercase hexadecimal digits.
pub open spec fn address_text(bytes: Seq<u8>) -> Seq<char> {
    seq!['0', 'x'] + hex_digits(bytes)
}

fn hex_digit_str(n: u8) -> (s: &'static str)
    requires
        n < 16,
    ensures
        s@ == seq![hex_digit(n as int)],
{
    proof {
        reveal_strlit("0");
        reveal_strlit("1");
        reveal_strlit("2");
        reveal_strlit("3");
        reveal_strlit("4");
        reveal_strlit("5");
        reveal_strlit("6");
        reveal_strlit("7");
        reveal_strlit("8");
        reveal_strlit("9");
        reveal_strlit("a");
        reveal_strlit("b");
        reveal_strlit("c");
        reveal_strlit("d");
        reveal_strlit("e");
        reveal_strlit("f");
    }
    let s = if n == 0 {
        "0"
    } else if n == 1 {
        "1"
    } else if n == 2 {
        "2"
    } else if n == 3 {
        "3"
    } else if n == 4 {
        "4"
    } else if n == 5 {
        "5"
    } else if n == 6 {
        "6"
    } else if n == 7 {
        "7"
    } else if n == 8 {
        "8"
    } else if n == 9 {
        "9"
    } else if n == 10 {
        "a"
    } else if n == 11 {
        "b"
    } else if n == 12 {
        "c"
    } else if n == 13 {
        "d"
    } else if n == 14 {
        "e"
    } else {
        "f"
    };
    assert(s@ =~= seq![hex_digit(n as int)]);
    s
}

impl Address {
    /// Writes the address as `0x` and forty lowercase hexadecimal digits.
    pub fn to_hex(&self) -> (text: String)
        ensures
            text@ == address_text(self.bytes@),
            text@.len() == 42,
    {
        proof {
            reveal_strlit("0x");
        }
        let mut text = String::from_str("0x");
        let mut i: usize = 0;
        assert(text@ =~= seq!['0', 'x'] + hex_digits(self.bytes@.take(0)));
        while i < 20
            invariant
                i <= 20,
                text@ == seq!['0', 'x'] + hex_digits(self.bytes@.take(i as int)),
            decreases 20 - i,
        {
            let b = self.bytes[i];
            text.append(hex_digit_str(b / 16));
            text.append(hex_digit_str(b % 16));
            assert(text@ =~= seq!['0', 'x'] + hex_digits(self.bytes@.take(i + 1)));
            i = i + 1;
        }
        assert(self.bytes@.take(20) =~= self.bytes@);
        text
    }
}

impl U256 {
    /// The number that the four limbs stand for.
    pub open spec fn value(&self) -> nat {
        (self.limbs[0] as nat) + (self.limbs[1] as nat) * 0x1_0000_0000_0000_0000nat
            + (self.limbs[2] as nat) * 0x1_0000_0000_0000_0000_0000_0000_0000_0000nat
            + (self.limbs[3] as nat)
            * 0x1_0000_0000_0000_0000_0000_0000_0000_0000_0000_0000_0000_0000nat
    }

    /// The 256-bit integer equal to `v`.
    pub fn from_u64(v: u64) -> (n: U256)
        ensures
            n.value() == v,
            n.limbs@ == seq![v, 0u64, 0u64, 0u64],
    {
        let n = U256 { limbs: [v, 0, 0, 0] };
        assert(n.limbs@ =~= seq![v, 0u64, 0u64, 0u64]);
        n
    }

    /// The value as a signed 64-bit integer, when it is small enough to be one.
    pub fn to_i64(&self) -> (small: Option<i64>)
        ensures
            small == if self.value() <= i64::MAX {
                Some(self.value() as i64)
            } else {
                None::<i64>
            },
    {
        if self.limbs[1] == 0 && self.limbs[2] == 0 && self.limbs[3] == 0 && self.limbs[0]
            <= 0x7fff_ffff_ffff_ffff {
            Some(self.limbs[0] as i64)
        } else {
            None
        }
    }
}

} // verus!
