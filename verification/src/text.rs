//! Decimal text for numbers, and the named text arguments that a widget's
//! theme fills in.
use vstd::prelude::*;
use vstd::string::*;

verus! {

/// The character of a decimal digit.
pub open spec fn digit_char(d: nat) -> char {
    if d == 0 { '0' }
    else if d == 1 { '1' }
    else if d == 2 { '2' }
    else if d == 3 { '3' }
    else if d == 4 { '4' }
    else if d == 5 { '5' }
    else if d == 6 { '6' }
    else if d == 7 { '7' }
    else if d == 8 { '8' }
    else { '9' }
}

/// The decimal digits of `n`, most significant first, without leading zeros.
pub open spec fn decimal(n: nat) -> Seq<char>
    decreases n,
{
    if n < 10 {
        seq![digit_char(n)]
    } else {
        decimal(n / 10).push(digit_char(n % 10))
    }
}

/// The decimal text of `n`, with a leading '-' when it is negative.
pub open spec fn signed_decimal(n: int) -> Seq<char> {
    if n < 0 {
        seq!['-'] + decimal((-n) as nat)
    } else {
        decimal(n as nat)
    }
}

fn digit_str(d: u64) -> (s: &'static str)
    requires
        d < 10,
    ensures
        s@ == seq![digit_char(d as nat)],
{
    if d == 0 {
        proof { reveal_strlit("0"); }
        "0"
    } else if d == 1 {
        proof { reveal_strlit("1"); }
        "1"
    } else if d == 2 {
        proof { reveal_strlit("2"); }
        "2"
    } else if d == 3 {
        proof { reveal_strlit("3"); }
        "3"
    } else if d == 4 {
        proof { reveal_strlit("4"); }
        "4"
    } else if d == 5 {
        proof { reveal_strlit("5"); }
        "5"
    } else if d == 6 {
        proof { reveal_strlit("6"); }
        "6"
    } else if d == 7 {
        proof { reveal_strlit("7"); }
        "7"
    } else if d == 8 {
        proof { reveal_strlit("8"); }
        "8"
    } else {
        proof { reveal_strlit("9"); }
        "9"
    }
}

/// The decimal text of `n`.
pub fn u64_to_string(n: u64) -> (s: String)
    ensures
        s@ == decimal(n as nat),
    decreases n,
{
    if n < 10 {
        String::from_str(digit_str(n))
    } else {
        let mut s = u64_to_string(n / 10);
        s.append(digit_str(n % 10));
        s
    }
}

/// The decimal text of `n`, with a leading '-' when it is negative.
pub fn i64_to_string(n: i64) -> (s: String)
    ensures
        s@ == signed_decimal(n as int),
{
    if n < 0 {
        let m: u64 = (0i128 - n as i128) as u64;
        let digits = u64_to_string(m);
        proof { reveal_strlit("-"); }
        let mut s = String::from_str("-");
        s.append(digits.as_str());
        s
    } else {
        u64_to_string(n as u64)
    }
}

/// `prefix` followed by the decimal text of `n`.
pub fn numbered(prefix: &str, n: u64) -> (s: String)
    ensures
        s@ == prefix@ + decimal(n as nat),
{
    let mut s = String::from_str(prefix);
    let d = u64_to_string(n);
    s.append(d.as_str());
    s
}

/// `prefix`, the decimal text of `n`, then `suffix`.
pub fn numbered_with_suffix(prefix: &str, n: u64, suffix: &str) -> (s: String)
    ensures
        s@ == prefix@ + decimal(n as nat) + suffix@,
{
    let mut s = numbered(prefix, n);
    s.append(suffix);
    s
}

/// Named text arguments, in the order they were added; a name added again
/// takes the later value.
pub struct TextArgs {
    args: Vec<(String, String)>,
}

/// The pairs of names and values of a run of text arguments.
pub open spec fn args_view(args: Seq<(String, String)>) -> Seq<(Seq<char>, Seq<char>)> {
    Seq::new(args.len(), |i: int| (args[i].0@, args[i].1@))
}

/// The value last given to `name`, if any.
pub open spec fn arg_value(args: Seq<(Seq<char>, Seq<char>)>, name: Seq<char>) -> Option<Seq<char>>
    decreases args.len(),
{
    if args.len() == 0 {
        None
    } else if args.last().0 == name {
        Some(args.last().1)
    } else {
        arg_value(args.drop_last(), name)
    }
}

impl View for TextArgs {
    type V = Seq<(Seq<char>, Seq<char>)>;

    closed spec fn view(&self) -> Seq<(Seq<char>, Seq<char>)> {
        args_view(self.args@)
    }
}

impl TextArgs {
    /// No arguments.
    pub fn new() -> (t: TextArgs)
        ensures
            t@ == Seq::<(Seq<char>, Seq<char>)>::empty(),
    {
        let t = TextArgs { args: Vec::new() };
        proof {
            assert(t@ =~= Seq::<(Seq<char>, Seq<char>)>::empty());
        }
        t
    }

    /// Gives `name` the value `value`.
    pub fn add_text_arg(&mut self, name: &str, value: &str)
        ensures
            final(self)@ == old(self)@.push((name@, value@)),
    {
        self.args.push((String::from_str(name), String::from_str(value)));
        proof {
            assert(self@ =~= old(self)@.push((name@, value@)));
        }
    }

    /// Gives `name` the decimal text of `n`.
    pub fn add_u64(&mut self, name: &str, n: u64)
        ensures
            final(self)@ == old(self)@.push((name@, decimal(n as nat))),
    {
        let v = u64_to_string(n);
        self.add_text_arg(name, v.as_str());
    }

    /// Gives `name` the decimal text of `n`.
    pub fn add_i64(&mut self, name: &str, n: i64)
        ensures
            final(self)@ == old(self)@.push((name@, signed_decimal(n as int))),
    {
        let v = i64_to_string(n);
        self.add_text_arg(name, v.as_str());
    }

    /// The value last given to `name`, if any.
    pub fn get(&self, name: &str) -> (r: Option<String>)
        ensures
            match arg_value(self@, name@) {
                Some(v) => r matches Some(s) && s@ == v,
                None => r is None,
            },
    {
        let key = String::from_str(name);
        let mut i = self.args.len();
        proof {
            assert(self@.take(i as int) =~= self@);
        }
        while i > 0
            invariant
                key@ == name@,
                i <= self.args@.len(),
                arg_value(self@, name@) == arg_value(self@.take(i as int), name@),
            decreases i,
        {
            proof {
                assert(self@.take(i as int).drop_last() == self@.take(i - 1));
                assert(self@.take(i as int).last() == (self.args@[i - 1].0@, self.args@[i - 1].1@));
            }
            if self.args[i - 1].0 == key {
                return Some(self.args[i - 1].1.clone());
            }
            i = i - 1;
        }
        None
    }

    /// The number of arguments added.
    pub fn len(&self) -> (n: usize)
        ensures
            n == self@.len(),
    {
        self.args.len()
    }
}


/// After a name is given a value, reading the name gives that value, and
/// reading any other name gives what it gave before.
pub proof fn lemma_arg_read_after_write(args: Seq<(Seq<char>, Seq<char>)>, name: Seq<char>, value: Seq<char>, other: Seq<char>)
    ensures
        arg_value(args.push((name, value)), name) == Some(value),
        other != name ==> arg_value(args.push((name, value)), other) == arg_value(args, other),
{
    assert(args.push((name, value)).drop_last() == args);
}

} // verus!
