use vstd::prelude::*;
use vstd::arithmetic::div_mod::lemma_div_is_ordered;
use vstd::string::StringExecFns;

verus! {

/// The units a byte count can be printed in.
#[derive(Clone, Copy, Debug)]
pub enum FileSize {
    B,
    KB,
    MB,
    GB,
    TB,
}

/// How many bytes one unit stands for.
pub open spec fn spec_unit_value(unit: FileSize) -> u64 {
    match unit {
        FileSize::B => 1,
        FileSize::KB => 1024,
        FileSize::MB => 1048576,
        FileSize::GB => 1073741824,
        FileSize::TB => 1099511627776,
    }
}

/// The unit's short name.
pub open spec fn spec_unit_label(unit: FileSize) -> Seq<char> {
    match unit {
        FileSize::B => "B"@,
        FileSize::KB => "KB"@,
        FileSize::MB => "MB"@,
        FileSize::GB => "GB"@,
        FileSize::TB => "TB"@,
    }
}

impl FileSize {
    /// How many bytes this unit stands for.
    pub fn value(&self) -> (v: u64)
        ensures
            v == spec_unit_value(*self),
    {
        match *self {
            FileSize::B => 1,
            FileSize::KB => 1_024,
            FileSize::MB => 1_048_576,
            FileSize::GB => 1_073_741_824,
            FileSize::TB => 1_099_511_627_776,
        }
    }

    /// This unit's short name.
    pub fn label(&self) -> (s: &'static str)
        ensures
            s@ == spec_unit_label(*self),
    {
        match *self {
            FileSize::B => "B",
            FileSize::KB => "KB",
            FileSize::MB => "MB",
            FileSize::GB => "GB",
            FileSize::TB => "TB",
        }
    }
}

/// The unit a byte count is printed in, picked by decimal thresholds.
pub open spec fn spec_unit_of(size: u64) -> FileSize {
    if size <= 999 {
        FileSize::B
    } else if size <= 999_999 {
        FileSize::KB
    } else if size <= 999_999_999 {
        FileSize::MB
    } else if size <= 999_999_999_999 {
        FileSize::GB
    } else {
        FileSize::TB
    }
}

/// The digit character for one decimal digit.
pub open spec fn spec_digit_char(d: int) -> char {
    if d == 0 {
        '0'
    } else if d == 1 {
        '1'
    } else if d == 2 {
        '2'
    } else if d == 3 {
        '3'
    } else if d == 4 {
        '4'
    } else if d == 5 {
        '5'
    } else if d == 6 {
        '6'
    } else if d == 7 {
        '7'
    } else if d == 8 {
        '8'
    } else {
        '9'
    }
}

/// The decimal digits of a nonnegative number, most significant first.
pub open spec fn spec_decimal(n: int) -> Seq<char>
    recommends
        n >= 0,
    decreases n,
{
    if n < 10 {
        seq![spec_digit_char(n)]
    } else {
        spec_decimal(n / 10) + seq![spec_digit_char(n % 10)]
    }
}

/// The one-character string for one decimal digit.
fn digit_str(d: u64) -> (s: &'static str)
    requires
        d < 10,
    ensures
        s@ == seq![spec_digit_char(d as int)],
{
    let s: &'static str = if d == 0 {
        "0"
    } else if d == 1 {
        "1"
    } else if d == 2 {
        "2"
    } else if d == 3 {
        "3"
    } else if d == 4 {
        "4"
    } else if d == 5 {
        "5"
    } else if d == 6 {
        "6"
    } else if d == 7 {
        "7"
    } else if d == 8 {
        "8"
    } else {
        "9"
    };
    proof {
        reveal_strlit("0");
        reveal_strlit("1");
        reveal_strlit("2");
        reveal_strlit("3");
        reveal_strlit("4");
        reveal_strlit("5");
        reveal_strlit("6");
        reveal_strlit("7");
        reveal_strlit("8");
        reveal_strlit("9");
        assert(s@ =~= seq![spec_digit_char(d as int)]);
    }
    s
}

/// Write a number in decimal, most significant digit first.
pub fn u64_to_decimal(n: u64) -> (s: String)
    ensures
        s@ == spec_decimal(n as int),
    decreases n,
{
    if n < 10 {
        String::from_str(digit_str(n))
    } else {
        let mut s = u64_to_decimal(n / 10);
        s.append(digit_str(n % 10));
        proof {
            assert(s@ =~= spec_decimal(n as int));
        }
        s
    }
}

/// A byte count scaled to its display unit, in hundredths: the whole part is
/// the quotient by one hundred, the two printed decimals the remainder.
pub open spec fn spec_scaled(size: u64) -> int {
    (size as int * 100) / spec_unit_value(spec_unit_of(size)) as int
}

/// The text a byte count is displayed as: the scaled value with two decimals,
/// a space, and the unit's name.
pub open spec fn spec_file_size_text(size: u64) -> Seq<char> {
    let scaled = spec_scaled(size);
    spec_decimal(scaled / 100) + "."@ + seq![
        spec_digit_char((scaled % 100) / 10),
        spec_digit_char(scaled % 10),
    ] + " "@ + spec_unit_label(spec_unit_of(size))
}

/// A human-readable rendering of a byte count, kept as its text.
#[derive(Debug)]
pub struct StringFileSize(pub String);

impl StringFileSize {
    /// Render a byte count with two decimals in the unit its magnitude calls
    /// for, scaling by truncation.
    pub fn from(size: u64) -> (rendered: StringFileSize)
        ensures
            rendered.0@ == spec_file_size_text(size),
    {
        let unit = if size <= 999 {
            FileSize::B
        } else if size <= 999_999 {
            FileSize::KB
        } else if size <= 999_999_999 {
            FileSize::MB
        } else if size <= 999_999_999_999 {
            FileSize::GB
        } else {
            FileSize::TB
        };
        let unit_value = unit.value();
        let scaled_wide: u128 = (size as u128) * 100 / (unit_value as u128);
        proof {
            lemma_div_is_ordered(
                size as int * 100,
                u64::MAX as int * 100,
                unit_value as int,
            );
        }
        let scaled: u64 = scaled_wide as u64;
        let mut s = u64_to_decimal(scaled / 100);
        s.append(".");
        s.append(digit_str((scaled % 100) / 10));
        s.append(digit_str(scaled % 10));
        s.append(" ");
        s.append(unit.label());
        proof {
            assert((scaled % 100) as int / 10 == (spec_scaled(size) % 100) / 10);
            assert(s@ =~= spec_file_size_text(size));
        }
        StringFileSize(s)
    }

    /// The rendered text.
    pub fn to_string(&self) -> (s: String)
        ensures
            s@ == self.0@,
    {
        self.0.clone()
    }
}

} // verus!
