use vstd::prelude::*;
use vstd::string::StringExecFns;

verus! {

/// A command-line argument: a name and a value. A free-standing value has the
/// empty name.
pub struct Arg {
    pub name: String,
    pub value: String,
}

/// A parsed command line.
pub struct Args {
    args: Vec<Arg>,
}

/// The views of a sequence of strings.
pub open spec fn strs(v: Seq<String>) -> Seq<Seq<char>> {
    v.map_values(|s: String| s@)
}

/// The value given to a flag.
pub open spec fn flag_value() -> Seq<char> {
    seq!['t', 'r', 'u', 'e']
}

/// The (name, value) pairs read from `args[pos..]`. An item that starts with
/// `-` is a name: a flag takes the value `true`, any other name takes the next
/// item (or the empty value at the end). Any other item is a value with the
/// empty name.
pub open spec fn parse_from(args: Seq<Seq<char>>, flags: Seq<Seq<char>>, pos: int) -> Seq<
    (Seq<char>, Seq<char>),
>
    decreases args.len() - pos,
{
    if pos >= args.len() || pos < 0 {
        Seq::empty()
    } else {
        let item = args[pos];
        if item.len() > 0 && item[0] == '-' {
            if flags.contains(item) {
                seq![(item, flag_value())] + parse_from(args, flags, pos + 1)
            } else if pos + 1 < args.len() {
                seq![(item, args[pos + 1])] + parse_from(args, flags, pos + 2)
            } else {
                seq![(item, Seq::<char>::empty())]
            }
        } else {
            seq![(Seq::<char>::empty(), item)] + parse_from(args, flags, pos + 1)
        }
    }
}

/// How many of the pairs have the name `name`.
pub open spec fn count_named(s: Seq<(Seq<char>, Seq<char>)>, name: Seq<char>) -> nat
    decreases s.len(),
{
    if s.len() == 0 {
        0
    } else {
        count_named(s.drop_last(), name) + if s.last().0 == name { 1nat } else { 0nat }
    }
}

impl View for Args {
    type V = Seq<(Seq<char>, Seq<char>)>;

    closed spec fn view(&self) -> Seq<(Seq<char>, Seq<char>)> {
        self.args@.map_values(|a: Arg| (a.name@, a.value@))
    }
}

fn contains_string(v: &Vec<String>, s: &String) -> (r: bool)
    ensures
        r == strs(v@).contains(s@),
{
    let mut i: usize = 0;
    while i < v.len()
        invariant
            i <= v@.len(),
            forall|j: int| 0 <= j < i ==> v@[j]@ != s@,
        decreases v.len() - i,
    {
        if v[i] == *s {
            assert(strs(v@)[i as int] == s@);
            return true;
        }
        i += 1;
    }
    assert forall|j: int| 0 <= j < strs(v@).len() implies strs(v@)[j] != s@ by {
        assert(strs(v@)[j] == v@[j]@);
    }
    false
}

fn starts_with_dash(s: &String) -> (r: bool)
    ensures
        r == (s@.len() > 0 && s@[0] == '-'),
{
    let t = s.as_str();
    t.unicode_len() > 0 && t.get_char(0) == '-'
}

impl Args {
    /// Parses a command line; `args[0]`, the program's name, is skipped and
    /// `flags` lists the names that take no value.
    pub fn new(args: Vec<String>, flags: Vec<String>) -> (r: Args)
        ensures
            r@ == parse_from(strs(args@), strs(flags@), 1),
    {
        let ghost a = strs(args@);
        let ghost f = strs(flags@);
        let mut results: Vec<Arg> = Vec::new();
        let mut pos: usize = 1;
        proof {
            let rv = results@.map_values(|x: Arg| (x.name@, x.value@));
            assert(rv + parse_from(a, f, 1) =~= parse_from(a, f, 1));
        }
        while pos < args.len()
            invariant
                1 <= pos,
                pos <= args@.len() || args@.len() == 0,
                a == strs(args@),
                f == strs(flags@),
                parse_from(a, f, 1) == results@.map_values(|x: Arg| (x.name@, x.value@))
                    + parse_from(a, f, pos as int),
            decreases args.len() - pos,
        {
            let ghost before = results@.map_values(|x: Arg| (x.name@, x.value@));
            let item = args[pos].clone();
            assert(a[pos as int] == item@);
            pos += 1;
            if starts_with_dash(&item) {
                if contains_string(&flags, &item) {
                    let value = <String as StringExecFns>::from_str("true");
                    proof {
                        reveal_strlit("true");
                    }
                    assert(value@ =~= flag_value());
                    results.push(Arg { name: item, value });
                } else if pos < args.len() {
                    let value = args[pos].clone();
                    assert(a[pos as int] == value@);
                    results.push(Arg { name: item, value });
                    pos += 1;
                } else {
                    results.push(Arg { name: item, value: String::new() });
                }
            } else {
                results.push(Arg { name: String::new(), value: item });
            }
            let ghost after = results@.map_values(|x: Arg| (x.name@, x.value@));
            assert(after =~= before.push(after.last()));
            proof {
                let tail = parse_from(a, f, pos as int);
                assert(before.push(after.last()) + tail =~= before + (seq![after.last()] + tail));
            }
        }
        proof {
            let rv = results@.map_values(|x: Arg| (x.name@, x.value@));
            assert(rv + parse_from(a, f, pos as int) =~= rv);
        }
        Args { args: results }
    }

    /// The first argument named `name`, if any.
    pub fn get_arg(&self, name: &str) -> (r: Option<&Arg>)
        ensures
            match r {
                Some(arg) => exists|i: int|
                    0 <= i < self@.len() && self@[i] == (arg.name@, arg.value@) && arg.name@ == name@
                        && forall|j: int| 0 <= j < i ==> self@[j].0 != name@,
                None => forall|i: int| 0 <= i < self@.len() ==> self@[i].0 != name@,
            },
    {
        let target = <String as StringExecFns>::from_str(name);
        let mut i: usize = 0;
        while i < self.args.len()
            invariant
                i <= self@.len(),
                self@.len() == self.args@.len(),
                target@ == name@,
                forall|j: int| 0 <= j < i ==> self@[j].0 != name@,
            decreases self.args.len() - i,
        {
            assert(self@[i as int] == (self.args@[i as int].name@, self.args@[i as int].value@));
            if self.args[i].name == target {
                return Some(&self.args[i]);
            }
            i += 1;
        }
        None
    }

    /// Whether some argument is named `name`.
    pub fn has_arg(&self, name: &str) -> (r: bool)
        ensures
            r == exists|i: int| 0 <= i < self@.len() && self@[i].0 == name@,
    {
        match self.get_arg(name) {
            Some(_) => true,
            None => false,
        }
    }

    /// How many arguments are named `name`.
    pub fn count_arg(&self, name: &str) -> (r: usize)
        ensures
            r == count_named(self@, name@),
    {
        let target = <String as StringExecFns>::from_str(name);
        let mut count: usize = 0;
        let mut i: usize = 0;
        while i < self.args.len()
            invariant
                i <= self@.len(),
                self@.len() == self.args@.len(),
                target@ == name@,
                count <= i,
                count == count_named(self@.take(i as int), name@),
            decreases self.args.len() - i,
        {
            assert(self@.take(i + 1).drop_last() =~= self@.take(i as int));
            assert(self@[i as int] == (self.args@[i as int].name@, self.args@[i as int].value@));
            if self.args[i].name == target {
                count += 1;
            }
            i += 1;
        }
        assert(self@.take(i as int) =~= self@);
        count
    }
}

} // verus!
