//! Command-line options: a small verified map of option names to values,
//! and the parser that fills it from the argument list.
use vstd::prelude::*;
use crate::exit::ExitReason;
use crate::text::str_eq;

verus! {

/// Option names mapped to their values; an option without a value maps to
/// the empty string.
pub struct Opts {
    entries: Vec<(String, String)>,
}

pub open spec fn pair_views(s: Seq<(String, String)>) -> Seq<(Seq<char>, Seq<char>)> {
    s.map_values(|e: (String, String)| (e.0@, e.1@))
}

/// The map that a list of entries stands for; a later entry overrides an
/// earlier one with the same key.
pub open spec fn entries_map(s: Seq<(Seq<char>, Seq<char>)>) -> Map<Seq<char>, Seq<char>>
    decreases s.len(),
{
    if s.len() == 0 {
        Map::empty()
    } else {
        entries_map(s.drop_last()).insert(s.last().0, s.last().1)
    }
}

pub open spec fn keys_unique(s: Seq<(Seq<char>, Seq<char>)>) -> bool {
    forall|i: int, j: int| 0 <= i < j < s.len() ==> #[trigger] s[i].0 != #[trigger] s[j].0
}

proof fn lemma_map_contains(s: Seq<(Seq<char>, Seq<char>)>, k: Seq<char>)
    ensures
        entries_map(s).contains_key(k) <==> exists|i: int| 0 <= i < s.len() && #[trigger] s[i].0 == k,
    decreases s.len(),
{
    if s.len() > 0 {
        lemma_map_contains(s.drop_last(), k);
        if entries_map(s.drop_last()).contains_key(k) {
            let i = choose|i: int| 0 <= i < s.len() - 1 && #[trigger] s.drop_last()[i].0 == k;
            assert(s[i].0 == k);
        }
        if exists|i: int| 0 <= i < s.len() && #[trigger] s[i].0 == k {
            let i = choose|i: int| 0 <= i < s.len() && #[trigger] s[i].0 == k;
            if i < s.len() - 1 {
                assert(s.drop_last()[i].0 == k);
            }
        }
    }
}

proof fn lemma_map_value(s: Seq<(Seq<char>, Seq<char>)>, i: int)
    requires
        keys_unique(s),
        0 <= i < s.len(),
    ensures
        entries_map(s).contains_key(s[i].0),
        entries_map(s)[s[i].0] == s[i].1,
    decreases s.len(),
{
    if i < s.len() - 1 {
        lemma_map_value(s.drop_last(), i);
        assert(s.drop_last()[i] == s[i]);
        assert(s[i].0 != s.last().0);
    }
}

proof fn lemma_map_update(s: Seq<(Seq<char>, Seq<char>)>, i: int, v: Seq<char>)
    requires
        keys_unique(s),
        0 <= i < s.len(),
    ensures
        entries_map(s.update(i, (s[i].0, v))) == entries_map(s).insert(s[i].0, v),
    decreases s.len(),
{
    let t = s.update(i, (s[i].0, v));
    let k = s[i].0;
    if i == s.len() - 1 {
        assert(t.drop_last() =~= s.drop_last());
        assert(entries_map(t) =~= entries_map(s).insert(k, v));
    } else {
        let d = s.drop_last();
        assert(t.drop_last() =~= d.update(i, (d[i].0, v)));
        lemma_map_update(d, i, v);
        assert(s.last().0 != k);
        assert(entries_map(t) =~= entries_map(s).insert(k, v));
    }
}

impl View for Opts {
    type V = Map<Seq<char>, Seq<char>>;

    closed spec fn view(&self) -> Map<Seq<char>, Seq<char>> {
        entries_map(pair_views(self.entries@))
    }
}

impl Opts {
    /// No key has two entries.
    pub closed spec fn wf(&self) -> bool {
        keys_unique(pair_views(self.entries@))
    }

    /// An empty map.
    pub fn new() -> (o: Opts)
        ensures
            o@ == Map::<Seq<char>, Seq<char>>::empty(),
            o.wf(),
    {
        let o = Opts { entries: Vec::new() };
        assert(pair_views(o.entries@) =~= Seq::empty());
        o
    }

    /// Index of the entry with key `key`, if there is one.
    fn find(&self, key: &str) -> (r: Option<usize>)
        ensures
            r matches Some(i) ==> i < self.entries@.len() && self.entries@[i as int].0@ == key@,
            r is None ==> forall|i: int|
                0 <= i < self.entries@.len() ==> self.entries@[i].0@ != key@,
    {
        let mut i: usize = 0;
        while i < self.entries.len()
            invariant
                i <= self.entries@.len(),
                forall|j: int| 0 <= j < i ==> self.entries@[j].0@ != key@,
            decreases self.entries.len() - i,
        {
            if str_eq(self.entries[i].0.as_str(), key) {
                return Some(i);
            }
            i = i + 1;
        }
        None
    }

    /// Whether `key` has an entry.
    pub fn contains_key(&self, key: &str) -> (r: bool)
        ensures
            r == self@.contains_key(key@),
    {
        let ghost s = pair_views(self.entries@);
        proof {
            lemma_map_contains(s, key@);
        }
        match self.find(key) {
            Some(i) => {
                assert(s[i as int].0 == key@);
                true
            },
            None => {
                assert forall|i: int| 0 <= i < s.len() implies #[trigger] s[i].0 != key@ by {
                    assert(s[i].0 == self.entries@[i].0@);
                }
                false
            },
        }
    }

    /// The value of `key`, if it has an entry.
    pub fn get(&self, key: &str) -> (r: Option<&String>)
        requires
            self.wf(),
        ensures
            self@.contains_key(key@) ==> (r matches Some(v) && v@ == self@[key@]),
            !self@.contains_key(key@) ==> r is None,
    {
        let ghost s = pair_views(self.entries@);
        proof {
            lemma_map_contains(s, key@);
        }
        match self.find(key) {
            Some(i) => {
                proof {
                    lemma_map_value(s, i as int);
                }
                Some(&self.entries[i].1)
            },
            None => {
                assert forall|i: int| 0 <= i < s.len() implies #[trigger] s[i].0 != key@ by {
                    assert(s[i].0 == self.entries@[i].0@);
                }
                None
            },
        }
    }

    /// Sets the value of `key`, replacing an earlier one.
    pub fn insert(&mut self, key: String, value: String)
        requires
            old(self).wf(),
        ensures
            final(self).wf(),
            final(self)@ == old(self)@.insert(key@, value@),
    {
        let ghost s = pair_views(self.entries@);
        match self.find(key.as_str()) {
            Some(i) => {
                proof {
                    lemma_map_update(s, i as int, value@);
                }
                let k = self.entries[i].0.clone();
                self.entries.set(i, (k, value));
                assert(pair_views(self.entries@) =~= s.update(i as int, (s[i as int].0, value@)));
                assert(keys_unique(pair_views(self.entries@)));
            },
            None => {
                let ghost e = (key@, value@);
                self.entries.push((key, value));
                assert(pair_views(self.entries@) =~= s.push(e));
                assert(pair_views(self.entries@).drop_last() =~= s);
                assert(keys_unique(pair_views(self.entries@))) by {
                    assert forall|i: int| 0 <= i < s.len() implies #[trigger] s[i].0 != e.0 by {
                        assert(s[i].0 == old(self).entries@[i].0@);
                    }
                }
            },
        }
    }
}

/// Whether option `id` was given.
pub fn flag_set(opts: &Opts, id: &str) -> (r: bool)
    ensures
        r == opts@.contains_key(id@),
{
    opts.contains_key(id)
}

// ---------------------------------------------------------------------------
// The argument parser

/// The option that a name selects: its long name, and whether it takes the
/// next argument as its value.
pub open spec fn option_of(name: Seq<char>) -> Option<(Seq<char>, bool)> {
    if name == "out-file"@ || name == "O"@ {
        Some(("out-file"@, true))
    } else if name == "no-warn"@ || name == "W"@ {
        Some(("no-warn"@, false))
    } else if name == "version"@ || name == "V"@ {
        Some(("version"@, false))
    } else if name == "silent"@ || name == "s"@ {
        Some(("silent"@, false))
    } else if name == "soft-silent"@ || name == "S"@ {
        Some(("soft-silent"@, false))
    } else if name == "verbose"@ || name == "v"@ {
        Some(("verbose"@, false))
    } else {
        None
    }
}

/// `--name`: one long option.
pub open spec fn is_long(arg: Seq<char>) -> bool {
    arg.len() >= 2 && arg[0] == '-' && arg[1] == '-'
}

/// The option names in an argument that starts with `-`: the rest of a long
/// option, or each letter of a cluster of short ones.
pub open spec fn option_names(arg: Seq<char>) -> Seq<Seq<char>> {
    if is_long(arg) {
        seq![arg.subrange(2, arg.len() as int)]
    } else {
        arg.subrange(1, arg.len() as int).map_values(|c: char| seq![c])
    }
}

/// How an option name is shown in messages: with the dashes it was given.
pub open spec fn shown(arg: Seq<char>, name: Seq<char>) -> Seq<char> {
    if is_long(arg) {
        "--"@ + name
    } else {
        "-"@ + name
    }
}

pub open spec fn missing_value_failure(dsp: Seq<char>) -> (Seq<char>, ExitReason) {
    (
        "Option \""@ + dsp
            + "\" expected an input argument but got none.\nRun without arguments for the help page."@,
        ExitReason::OptionExpectedInputArgument,
    )
}

pub open spec fn unknown_option_failure(dsp: Seq<char>) -> (Seq<char>, ExitReason) {
    (
        "Unknown option \""@ + dsp + "\".\nRun without arguments for the help page."@,
        ExitReason::UnknownOption,
    )
}

/// What parsing the arguments leaves behind: the options and the plain
/// arguments collected (up to the error, if there is one), and the error.
pub struct ArgsOutcome {
    pub opts: Map<Seq<char>, Seq<char>>,
    pub args: Seq<Seq<char>>,
    pub error: Option<(Seq<char>, ExitReason)>,
}

/// Parses `args` from index `i` on. `names` are the option names of the
/// argument `cur` that are still to be handled.
pub open spec fn parse_args_from(
    args: Seq<Seq<char>>,
    i: int,
    cur: Seq<char>,
    names: Seq<Seq<char>>,
    opts: Map<Seq<char>, Seq<char>>,
    out: Seq<Seq<char>>,
) -> ArgsOutcome
    decreases args.len() - i, names.len(),
{
    if names.len() > 0 {
        let dsp = shown(cur, names[0]);
        match option_of(names[0]) {
            None => ArgsOutcome { opts, args: out, error: Some(unknown_option_failure(dsp)) },
            Some((long, takes_value)) => {
                if !takes_value {
                    parse_args_from(args, i, cur, names.drop_first(), opts.insert(long, Seq::empty()), out)
                } else if 0 <= i < args.len() {
                    parse_args_from(args, i + 1, cur, names.drop_first(), opts.insert(long, args[i]), out)
                } else {
                    ArgsOutcome { opts, args: out, error: Some(missing_value_failure(dsp)) }
                }
            },
        }
    } else if i < 0 || i >= args.len() {
        ArgsOutcome { opts, args: out, error: None }
    } else {
        let arg = args[i];
        if arg.len() > 0 && arg[0] == '-' {
            parse_args_from(args, i + 1, arg, option_names(arg), opts, out)
        } else if arg.len() > 0 && arg[0] == '\\' {
            parse_args_from(args, i + 1, arg, Seq::empty(), opts, out.push(arg.subrange(1, arg.len() as int)))
        } else {
            parse_args_from(args, i + 1, arg, Seq::empty(), opts, out.push(arg))
        }
    }
}

pub open spec fn parse_args_spec(
    args: Seq<Seq<char>>,
    opts: Map<Seq<char>, Seq<char>>,
    out: Seq<Seq<char>>,
) -> ArgsOutcome {
    parse_args_from(args, 0, Seq::empty(), Seq::empty(), opts, out)
}

pub open spec fn string_views(s: Seq<String>) -> Seq<Seq<char>> {
    s.map_values(|x: String| x@)
}

fn select_option(name: &str) -> (r: Option<(&'static str, bool)>)
    ensures
        match option_of(name@) {
            Some((long, v)) => r matches Some((l, w)) && l@ == long && w == v,
            None => r is None,
        },
{
    if str_eq(name, "out-file") || str_eq(name, "O") {
        Some(("out-file", true))
    } else if str_eq(name, "no-warn") || str_eq(name, "W") {
        Some(("no-warn", false))
    } else if str_eq(name, "version") || str_eq(name, "V") {
        Some(("version", false))
    } else if str_eq(name, "silent") || str_eq(name, "s") {
        Some(("silent", false))
    } else if str_eq(name, "soft-silent") || str_eq(name, "S") {
        Some(("soft-silent", false))
    } else if str_eq(name, "verbose") || str_eq(name, "v") {
        Some(("verbose", false))
    } else {
        None
    }
}

fn shown_name(long: bool, name: &str) -> (r: String)
    ensures
        r@ == (if long {
            "--"@ + name@
        } else {
            "-"@ + name@
        }),
{
    let mut r = if long {
        String::from_str("--")
    } else {
        String::from_str("-")
    };
    r.append(name);
    r
}

/// The option names in `arg`, which starts with `-`.
fn names_of(arg: &str) -> (r: Vec<String>)
    requires
        arg@.len() > 0,
    ensures
        string_views(r@) == option_names(arg@),
{
    let len = arg.unicode_len();
    let mut r: Vec<String> = Vec::new();
    if len >= 2 && arg.get_char(0) == '-' && arg.get_char(1) == '-' {
        r.push(String::from_str(arg.substring_char(2, len)));
        assert(string_views(r@) =~= option_names(arg@));
        return r;
    }
    let ghost letters = arg@.subrange(1, len as int);
    let mut k: usize = 1;
    while k < len
        invariant
            len == arg@.len(),
            1 <= k <= len,
            letters == arg@.subrange(1, len as int),
            string_views(r@) == letters.subrange(0, k - 1).map_values(|c: char| seq![c]),
        decreases len - k,
    {
        let mut s = String::new();
        crate::text::push_char(&mut s, arg.get_char(k));
        let ghost before = string_views(r@);
        r.push(s);
        assert(string_views(r@) =~= before.push(seq![arg@[k as int]]));
        assert(letters.subrange(0, k as int).map_values(|c: char| seq![c]) =~= letters.subrange(
            0,
            k - 1,
        ).map_values(|c: char| seq![c]).push(seq![arg@[k as int]]));
        k = k + 1;
    }
    assert(letters.subrange(0, len - 1) =~= letters);
    r
}

/// Parses command-line arguments: options go into `out_opts`, the other
/// arguments, in order, into `out_args`. An argument that starts with `\`
/// is taken without its backslash, so that it may start with `-`.
pub fn parse_args(args: Vec<String>, out_opts: &mut Opts, out_args: &mut Vec<String>) -> (r: Result<
    (),
    (String, ExitReason),
>)
    requires
        old(out_opts).wf(),
    ensures
        final(out_opts).wf(),
        final(out_opts)@ == parse_args_spec(
            string_views(args@),
            old(out_opts)@,
            string_views(old(out_args)@),
        ).opts,
        string_views(final(out_args)@) == parse_args_spec(
            string_views(args@),
            old(out_opts)@,
            string_views(old(out_args)@),
        ).args,
        match parse_args_spec(string_views(args@), old(out_opts)@, string_views(old(out_args)@)).error {
            Some(e) => r matches Err(f) && f.0@ == e.0 && f.1 == e.1,
            None => r is Ok,
        },
{
    let ghost av = string_views(args@);
    let ghost goal = parse_args_spec(av, old(out_opts)@, string_views(old(out_args)@));
    let ghost mut cur: Seq<char> = Seq::empty();
    let n = args.len();
    let mut i: usize = 0;
    while i < n
        invariant
            n == args@.len(),
            av == string_views(args@),
            goal == parse_args_spec(av, old(out_opts)@, string_views(old(out_args)@)),
            i <= n,
            out_opts.wf(),
            parse_args_from(av, i as int, cur, Seq::empty(), out_opts@, string_views(out_args@))
                == goal,
        decreases n - i,
    {
        let arg = args[i].as_str();
        let len = arg.unicode_len();
        assert(av[i as int] == arg@);
        if len > 0 && arg.get_char(0) == '-' {
            let long = len >= 2 && arg.get_char(1) == '-';
            let names = names_of(arg);
            let ghost nv = string_views(names@);
            let mut k: usize = 0;
            let mut j: usize = i + 1;
            assert(nv.subrange(0, nv.len() as int) =~= nv);
            while k < names.len()
                invariant
                    n == args@.len(),
                    av == string_views(args@),
                    goal == parse_args_spec(av, old(out_opts)@, string_views(old(out_args)@)),
                    arg@ == av[i as int],
                    i < j <= n,
                    long == is_long(arg@),
                    k <= names@.len(),
                    nv == string_views(names@),
                    nv == option_names(arg@),
                    out_opts.wf(),
                    parse_args_from(
                        av,
                        j as int,
                        arg@,
                        nv.subrange(k as int, nv.len() as int),
                        out_opts@,
                        string_views(out_args@),
                    ) == goal,
                decreases names.len() - k,
            {
                let ghost pending = nv.subrange(k as int, nv.len() as int);
                let name = names[k].as_str();
                assert(pending[0] == name@);
                assert(pending.drop_first() =~= nv.subrange(k + 1, nv.len() as int));
                match select_option(name) {
                    None => {
                        let mut m = String::from_str("Unknown option \"");
                        m.append(shown_name(long, name).as_str());
                        m.append("\".\nRun without arguments for the help page.");
                        return Err((m, ExitReason::UnknownOption));
                    },
                    Some((key, takes_value)) => {
                        if takes_value {
                            if j >= n {
                                let mut m = String::from_str("Option \"");
                                m.append(shown_name(long, name).as_str());
                                m.append(
                                    "\" expected an input argument but got none.\nRun without arguments for the help page.",
                                );
                                return Err((m, ExitReason::OptionExpectedInputArgument));
                            }
                            assert(av[j as int] == args@[j as int]@);
                            out_opts.insert(String::from_str(key), args[j].clone());
                            j = j + 1;
                        } else {
                            out_opts.insert(String::from_str(key), String::new());
                        }
                    },
                }
                k = k + 1;
            }
            assert(nv.subrange(k as int, nv.len() as int) =~= Seq::<Seq<char>>::empty());
            proof {
                cur = arg@;
            }
            i = j;
        } else if len > 0 && arg.get_char(0) == '\\' {
            let rest = String::from_str(arg.substring_char(1, len));
            let ghost before = string_views(out_args@);
            out_args.push(rest);
            assert(string_views(out_args@) =~= before.push(arg@.subrange(1, len as int)));
            proof {
                cur = arg@;
            }
            i = i + 1;
        } else {
            let ghost before = string_views(out_args@);
            out_args.push(args[i].clone());
            assert(string_views(out_args@) =~= before.push(arg@));
            proof {
                cur = arg@;
            }
            i = i + 1;
        }
    }
    Ok(())
}

} // verus!
