//! The command line: bare positionals and `--key value` / `--key=value` flags.

use vstd::hash_map::StringHashMap;
use vstd::prelude::*;

use crate::numeral::is_number_text;
use crate::numeral::Numeral;
use crate::text::find_char;
use crate::text::first_at;
use crate::text::lemma_first_at;
use crate::text::same_text;
use crate::text::starts_with;
use crate::text::texts;

verus! {

/// A parsed command line, as texts.
#[verifier::ext_equal]
pub struct CliText {
    pub positionals: Seq<Seq<char>>,
    pub flags: Map<Seq<char>, Seq<char>>,
}

impl CliText {
    /// Nothing parsed yet.
    pub open spec fn empty() -> CliText {
        CliText { positionals: Seq::empty(), flags: Map::empty() }
    }

    /// One more positional.
    pub open spec fn with_positional(self, a: Seq<char>) -> CliText {
        CliText { positionals: self.positionals.push(a), flags: self.flags }
    }

    /// A flag set; an earlier value of the same flag is forgotten.
    pub open spec fn with_flag(self, key: Seq<char>, value: Seq<char>) -> CliText {
        CliText { positionals: self.positionals, flags: self.flags.insert(key, value) }
    }

    /// The positionals of both in order, and the flags of both with those of
    /// `later` taking precedence.
    pub open spec fn followed_by(self, later: CliText) -> CliText {
        CliText {
            positionals: self.positionals + later.positionals,
            flags: self.flags.union_prefer_right(later.flags),
        }
    }

    /// The value of a flag.
    pub open spec fn value(self, key: Seq<char>) -> Option<Seq<char>> {
        if self.flags.contains_key(key) {
            Some(self.flags[key])
        } else {
            None
        }
    }

    /// The value of a flag, where it denotes a number.
    pub open spec fn number(self, key: Seq<char>) -> Option<Seq<char>> {
        if self.flags.contains_key(key) && is_number_text(self.flags[key]) {
            Some(self.flags[key])
        } else {
            None
        }
    }

    /// The value of a flag where it denotes a number, `default` otherwise.
    pub open spec fn number_or(self, key: Seq<char>, default: Seq<char>) -> Seq<char> {
        match self.number(key) {
            Some(n) => n,
            None => default,
        }
    }

    /// A flag that is present and switched on.
    pub open spec fn is_on(self, key: Seq<char>) -> bool {
        self.flags.contains_key(key) && means_yes(self.flags[key])
    }

    /// The positional at `i`, the empty text beyond the last one.
    pub open spec fn positional(self, i: int) -> Seq<char> {
        if 0 <= i < self.positionals.len() {
            self.positionals[i]
        } else {
            Seq::empty()
        }
    }
}

/// The texts that switch a flag on.
pub open spec fn means_yes(s: Seq<char>) -> bool {
    ||| s == "1"@
    ||| s == "on"@
    ||| s == "true"@
    ||| s == "yes"@
    ||| s == "ff"@
    ||| s == "y"@
}

/// The flags that act by their presence: they never take the next argument.
pub open spec fn acts_by_presence(key: Seq<char>) -> bool {
    ||| key == "ff"@
    ||| key == "grav-ff"@
    ||| key == "no-release"@
    ||| key == "restore"@
    ||| key == "smooth-swing"@
    ||| key == "level"@
    ||| key == "viz"@
    ||| key == "led-3support"@
}

/// An argument that names a flag.
pub open spec fn names_flag(a: Seq<char>) -> bool {
    "--"@.is_prefix_of(a)
}

/// What a flag argument says after its two dashes.
pub open spec fn flag_body(a: Seq<char>) -> Seq<char> {
    a.skip("--"@.len() as int)
}

/// The first argument is a flag that takes the second one as its value.
pub open spec fn takes_next(args: Seq<Seq<char>>) -> bool {
    &&& args.len() > 1
    &&& names_flag(args[0])
    &&& !flag_body(args[0]).contains('=')
    &&& !acts_by_presence(flag_body(args[0]))
    &&& !names_flag(args[1])
}

/// How many arguments the first one uses up.
pub open spec fn width(args: Seq<Seq<char>>) -> int {
    if takes_next(args) {
        2
    } else {
        1
    }
}

/// What the first argument (with its value, where it takes one) adds.
pub open spec fn after_first(seen: CliText, args: Seq<Seq<char>>) -> CliText {
    let body = flag_body(args[0]);
    if !names_flag(args[0]) {
        seen.with_positional(args[0])
    } else if body.contains('=') {
        let at = first_at(body, '=');
        seen.with_flag(body.take(at), body.skip(at + 1))
    } else if takes_next(args) {
        seen.with_flag(body, args[1])
    } else {
        seen.with_flag(body, "true"@)
    }
}

/// The command line that `args` denote, added to what was seen before.
pub open spec fn parsed_onto(seen: CliText, args: Seq<Seq<char>>) -> CliText
    decreases args.len(),
{
    if args.len() == 0 {
        seen
    } else {
        parsed_onto(after_first(seen, args), args.skip(width(args)))
    }
}

/// The command line that `args` denote.
pub open spec fn parsed(args: Seq<Seq<char>>) -> CliText {
    parsed_onto(CliText::empty(), args)
}

/// Whether a text switches a flag on.
pub fn parse_flag(s: &str) -> (r: bool)
    ensures
        r == means_yes(s@),
{
    same_text(s, "1") || same_text(s, "on") || same_text(s, "true") || same_text(s, "yes")
        || same_text(s, "ff") || same_text(s, "y")
}

/// Whether a flag acts by its presence.
fn presence_flag(key: &str) -> (r: bool)
    ensures
        r == acts_by_presence(key@),
{
    same_text(key, "ff") || same_text(key, "grav-ff") || same_text(key, "no-release") || same_text(
        key,
        "restore",
    ) || same_text(key, "smooth-swing") || same_text(key, "level") || same_text(key, "viz")
        || same_text(key, "led-3support")
}

/// A parsed command line.
pub struct Cli {
    pub positionals: Vec<String>,
    pub flags: StringHashMap<String>,
}

impl View for Cli {
    type V = CliText;

    open spec fn view(&self) -> CliText {
        CliText {
            positionals: texts(self.positionals@),
            flags: self.flags@.map_values(|v: String| v@),
        }
    }
}

/// Splits a command line into positionals and flags.
pub fn parse_cli(args: Vec<String>) -> (r: Cli)
    ensures
        r@ == parsed(texts(args@)),
{
    let ghost all = texts(args@);
    let mut cli: Cli = Cli { positionals: Vec::new(), flags: StringHashMap::new() };
    assert(cli@ =~= CliText::empty());
    assert(all.skip(0) =~= all);
    let mut i: usize = 0;
    while i < args.len()
        invariant
            i <= args@.len(),
            all == texts(args@),
            parsed_onto(cli@, all.skip(i as int)) == parsed(all),
        decreases args@.len() - i,
    {
        let ghost rest = all.skip(i as int);
        let ghost before = cli@;
        let a: &str = args[i].as_str();
        let n: usize = a.unicode_len();
        proof {
            reveal_strlit("--");
            assert(rest[0] == a@);
            assert(rest.skip(1) =~= all.skip(i + 1));
            if i + 1 < all.len() {
                assert(rest[1] == args@[i + 1]@);
                assert(rest.skip(2) =~= all.skip(i + 2));
            }
        }
        if !starts_with(a, "--") {
            cli.positionals.push(args[i].clone());
            assert(cli@ =~= before.with_positional(a@));
            i = i + 1;
            continue ;
        }
        let key: &str = a.substring_char(2, n);
        assert(key@ =~= flag_body(a@));
        match find_char(key, '=') {
            Some(at) => {
                let len: usize = key.unicode_len();
                proof {
                    lemma_first_at(key@, '=', at as int);
                }
                let k: &str = key.substring_char(0, at);
                let v: &str = key.substring_char(at + 1, len);
                assert(k@ =~= key@.take(at as int));
                assert(v@ =~= key@.skip(at + 1));
                cli.flags.insert(k.to_owned(), v.to_owned());
                assert(cli@ =~= before.with_flag(k@, v@));
                i = i + 1;
            },
            None => {
                if !presence_flag(key) && i + 1 < args.len() && !starts_with(
                    args[i + 1].as_str(),
                    "--",
                ) {
                    cli.flags.insert(key.to_owned(), args[i + 1].clone());
                    assert(cli@ =~= before.with_flag(key@, rest[1]));
                    i = i + 2;
                } else {
                    cli.flags.insert(key.to_owned(), "true".to_owned());
                    assert(cli@ =~= before.with_flag(key@, "true"@));
                    i = i + 1;
                }
            },
        }
    }
    assert(all.skip(i as int) =~= Seq::<Seq<char>>::empty());
    cli
}

impl Cli {
    /// The value of a flag.
    pub fn str(&self, key: &str) -> (r: Option<&str>)
        ensures
            match r {
                Some(v) => self@.value(key@) == Some(v@),
                None => self@.value(key@) is None,
            },
    {
        match self.flags.get(key) {
            Some(v) => Some(v.as_str()),
            None => None,
        }
    }

    /// The value of a flag, where it denotes a double-precision number.
    pub fn float64(&self, key: &str) -> (r: Option<Numeral>)
        ensures
            match r {
                Some(n) => self@.number(key@) == Some(n@),
                None => self@.number(key@) is None,
            },
    {
        match self.flags.get(key) {
            Some(v) => Numeral::new(v.as_str()),
            None => None,
        }
    }

    /// The value of a flag, where it denotes a single-precision number. The
    /// texts of the two precisions are the same; only their reading differs.
    pub fn float32(&self, key: &str) -> (r: Option<Numeral>)
        ensures
            match r {
                Some(n) => self@.number(key@) == Some(n@),
                None => self@.number(key@) is None,
            },
    {
        self.float64(key)
    }

    /// Whether a flag is present and switched on.
    pub fn flag(&self, key: &str) -> (r: bool)
        ensures
            r == self@.is_on(key@),
    {
        match self.flags.get(key) {
            Some(v) => parse_flag(v.as_str()),
            None => false,
        }
    }

    /// Whether a flag is present, whatever its value.
    pub fn has(&self, key: &str) -> (r: bool)
        ensures
            r == self@.flags.contains_key(key@),
    {
        self.flags.contains_key(key)
    }

    /// The positional at `i`, the empty text beyond the last one.
    pub fn positional(&self, i: usize) -> (r: &str)
        ensures
            r@ == self@.positional(i as int),
            i < self.positionals@.len() ==> r@ == self.positionals@[i as int]@,
            i >= self.positionals@.len() ==> r@.len() == 0,
    {
        if i < self.positionals.len() {
            self.positionals[i].as_str()
        } else {
            proof {
                reveal_strlit("");
            }
            assert(""@ =~= Seq::<char>::empty());
            ""
        }
    }
}

/// Arguments are read from left to right: what the later ones say is added to
/// what was seen before, and the last occurrence of a flag counts.
pub proof fn later_arguments_take_precedence(seen: CliText, args: Seq<Seq<char>>)
    ensures
        parsed_onto(seen, args) == seen.followed_by(parsed(args)),
    decreases args.len(),
{
    if args.len() == 0 {
        assert(seen.followed_by(CliText::empty()) =~= seen);
    } else {
        let rest = args.skip(width(args));
        let one = after_first(CliText::empty(), args);
        later_arguments_take_precedence(after_first(seen, args), rest);
        later_arguments_take_precedence(one, rest);
        assert(after_first(seen, args) =~= seen.followed_by(one));
        assert(seen.followed_by(one).followed_by(parsed(rest)) =~= seen.followed_by(
            one.followed_by(parsed(rest)),
        ));
    }
}

/// A command line can be read in two pieces, unless it is cut between a flag and
/// the value that the flag takes.
pub proof fn pieces_are_read_in_turn(seen: CliText, a: Seq<Seq<char>>, b: Seq<Seq<char>>)
    requires
        a.len() > 0 && b.len() > 0 ==> !takes_next(seq![a.last(), b[0]]),
    ensures
        parsed_onto(seen, a + b) == parsed_onto(parsed_onto(seen, a), b),
    decreases a.len(),
{
    if a.len() == 0 {
        assert(a + b =~= b);
    } else {
        let all = a + b;
        let w = width(a);
        if a.len() == 1 && b.len() > 0 {
            assert(all[0] == a.last() && all[1] == b[0]);
        } else if a.len() > 1 {
            assert(all[0] == a[0] && all[1] == a[1]);
        }
        assert(width(all) == w);
        assert(after_first(seen, all) == after_first(seen, a));
        let rest = a.skip(w);
        assert(all.skip(w) =~= rest + b);
        if rest.len() > 0 {
            assert(rest.last() == a.last());
        }
        pieces_are_read_in_turn(after_first(seen, a), rest, b);
    }
}

/// A flag that acts by its presence stands alone, wherever it comes: the argument
/// after it keeps its own meaning.
pub proof fn presence_flag_takes_nothing(
    before: Seq<Seq<char>>,
    key: Seq<char>,
    rest: Seq<Seq<char>>,
)
    requires
        acts_by_presence(key),
    ensures
        parsed(before + (seq!["--"@ + key] + rest)) == parsed(before).with_flag(
            key,
            "true"@,
        ).followed_by(parsed(rest)),
{
    let args = seq!["--"@ + key] + rest;
    lemma_flag_argument(key);
    lemma_presence_names(key);
    pieces_are_read_in_turn(CliText::empty(), before, args);
    assert(args.skip(1) =~= rest);
    later_arguments_take_precedence(parsed(before).with_flag(key, "true"@), rest);
}

/// `--key value` says the same as `--key=value`, wherever it comes.
pub proof fn spaced_value_is_joined_value(
    before: Seq<Seq<char>>,
    key: Seq<char>,
    value: Seq<char>,
    rest: Seq<Seq<char>>,
)
    requires
        !acts_by_presence(key),
        !key.contains('='),
        !names_flag(value),
    ensures
        parsed(before + (seq!["--"@ + key, value] + rest)) == parsed(
            before + (seq!["--"@ + key + seq!['='] + value] + rest),
        ),
{
    let seen = parsed(before);
    let spaced = seq!["--"@ + key, value] + rest;
    let glued = key + seq!['='] + value;
    let tight = seq!["--"@ + key + seq!['='] + value] + rest;
    lemma_flag_argument(key);
    lemma_flag_argument(glued);
    assert("--"@ + key + seq!['='] + value =~= "--"@ + glued);
    assert forall|j: int| 0 <= j < key.len() implies glued[j] != '=' by {
        assert(glued[j] == key[j]);
        assert(key.contains(key[j]));
    }
    lemma_first_at(glued, '=', key.len() as int);
    assert(glued.take(key.len() as int) =~= key);
    assert(glued.skip((key.len() + 1) as int) =~= value);
    assert(spaced[0] == "--"@ + key);
    assert(spaced[1] == value);
    assert(tight[0] == "--"@ + glued);
    assert(spaced.skip(2) =~= rest);
    assert(tight.skip(1) =~= rest);
    pieces_are_read_in_turn(CliText::empty(), before, spaced);
    pieces_are_read_in_turn(CliText::empty(), before, tight);
    assert(after_first(seen, spaced) == seen.with_flag(key, value));
    assert(after_first(seen, tight) == seen.with_flag(key, value));
}

/// Arguments without a leading `--` are the positionals, in their order.
pub proof fn bare_arguments_are_positionals(args: Seq<Seq<char>>)
    requires
        forall|i: int| 0 <= i < args.len() ==> !names_flag(#[trigger] args[i]),
    ensures
        parsed(args) == (CliText { positionals: args, flags: Map::empty() }),
    decreases args.len(),
{
    if args.len() == 0 {
        assert(parsed(args) =~= (CliText { positionals: args, flags: Map::empty() }));
    } else {
        let rest = args.skip(1);
        assert(!names_flag(args[0]));
        assert forall|i: int| 0 <= i < rest.len() implies !names_flag(#[trigger] rest[i]) by {
            assert(!names_flag(args[i + 1]));
        }
        bare_arguments_are_positionals(rest);
        later_arguments_take_precedence(CliText::empty().with_positional(args[0]), rest);
        assert(parsed(args) =~= (CliText { positionals: args, flags: Map::empty() }));
    }
}

proof fn lemma_flag_argument(body: Seq<char>)
    ensures
        names_flag("--"@ + body),
        flag_body("--"@ + body) == body,
{
    reveal_strlit("--");
    assert("--"@ =~= ("--"@ + body).take("--"@.len() as int));
    assert(flag_body("--"@ + body) =~= body);
}

proof fn lemma_presence_names(key: Seq<char>)
    requires
        acts_by_presence(key),
    ensures
        !key.contains('='),
{
    reveal_strlit("ff");
    reveal_strlit("grav-ff");
    reveal_strlit("no-release");
    reveal_strlit("restore");
    reveal_strlit("smooth-swing");
    reveal_strlit("level");
    reveal_strlit("viz");
    reveal_strlit("led-3support");
}

/// The last occurrence of a flag counts: `--key=value` at the end of a command
/// line sets that flag and leaves the rest as it was.
pub proof fn joined_flag_counts(before: Seq<Seq<char>>, key: Seq<char>, value: Seq<char>)
    requires
        !key.contains('='),
    ensures
        ({
            let cli = parsed(before + seq![seq!['-', '-'] + key + seq!['='] + value]);
            &&& cli.flags == parsed(before).flags.insert(key, value)
            &&& cli.positionals == parsed(before).positionals
        }),
{
    reveal_strlit("--");
    assert(seq!['-', '-'] =~= "--"@);
    let glued = key + seq!['='] + value;
    let last = seq!["--"@ + key + seq!['='] + value];
    lemma_flag_argument(glued);
    assert("--"@ + key + seq!['='] + value =~= "--"@ + glued);
    assert forall|j: int| 0 <= j < key.len() implies glued[j] != '=' by {
        assert(glued[j] == key[j]);
        assert(key.contains(key[j]));
    }
    assert(glued[key.len() as int] == '=');
    lemma_first_at(glued, '=', key.len() as int);
    assert(glued.take(key.len() as int) =~= key);
    assert(glued.skip((key.len() + 1) as int) =~= value);
    pieces_are_read_in_turn(CliText::empty(), before, last);
    assert(after_first(parsed(before), last) == parsed(before).with_flag(key, value));
    assert(last.skip(1) =~= Seq::<Seq<char>>::empty());
    assert(parsed_onto(parsed(before).with_flag(key, value), last.skip(1)) == parsed(
        before,
    ).with_flag(key, value));
}

/// A flag without a value, at the end or before another flag, says the same as
/// with the value `true`; the flags that are listed here do so wherever they come.
pub proof fn lone_flag_is_true(before: Seq<Seq<char>>, key: Seq<char>, rest: Seq<Seq<char>>)
    requires
        !key.contains('='),
        rest.len() == 0 || (rest[0].len() >= 2 && rest[0][0] == '-' && rest[0][1] == '-') || key
            == "ff"@ || key == "grav-ff"@ || key == "no-release"@ || key == "restore"@ || key
            == "smooth-swing"@ || key == "level"@ || key == "viz"@ || key == "led-3support"@,
    ensures
        parsed(before + (seq![seq!['-', '-'] + key] + rest)) == parsed(
            before + (seq![seq!['-', '-'] + key + seq!['='] + seq!['t', 'r', 'u', 'e']] + rest),
        ),
{
    reveal_strlit("--");
    reveal_strlit("true");
    assert(seq!['-', '-'] =~= "--"@);
    assert(seq!['t', 'r', 'u', 'e'] =~= "true"@);
    let seen = parsed(before);
    let alone = seq!["--"@ + key] + rest;
    let glued = key + seq!['='] + "true"@;
    let tight = seq!["--"@ + key + seq!['='] + "true"@] + rest;
    lemma_flag_argument(key);
    lemma_flag_argument(glued);
    assert("--"@ + key + seq!['='] + "true"@ =~= "--"@ + glued);
    assert forall|j: int| 0 <= j < key.len() implies glued[j] != '=' by {
        assert(glued[j] == key[j]);
        assert(key.contains(key[j]));
    }
    assert(glued[key.len() as int] == '=');
    lemma_first_at(glued, '=', key.len() as int);
    assert(glued.take(key.len() as int) =~= key);
    assert(glued.skip((key.len() + 1) as int) =~= "true"@);
    if rest.len() > 0 && rest[0].len() >= 2 && rest[0][0] == '-' && rest[0][1] == '-' {
        assert("--"@ =~= rest[0].take(2));
        assert(names_flag(rest[0]));
        assert(alone[1] == rest[0]);
    }
    assert(!takes_next(alone));
    assert(alone.skip(1) =~= rest);
    assert(tight.skip(1) =~= rest);
    pieces_are_read_in_turn(CliText::empty(), before, alone);
    pieces_are_read_in_turn(CliText::empty(), before, tight);
    assert(after_first(seen, alone) == seen.with_flag(key, "true"@));
    assert(after_first(seen, tight) == seen.with_flag(key, "true"@));
}

/// Every flag but the listed ones takes the argument after it as its value, unless
/// that begins with two dashes itself.
pub proof fn other_flags_take_the_next_argument(
    before: Seq<Seq<char>>,
    key: Seq<char>,
    value: Seq<char>,
)
    requires
        !key.contains('='),
        key != "ff"@ && key != "grav-ff"@ && key != "no-release"@ && key != "restore"@ && key
            != "smooth-swing"@ && key != "level"@ && key != "viz"@ && key != "led-3support"@,
        value.len() < 2 || value[0] != '-' || value[1] != '-',
    ensures
        ({
            let cli = parsed(before + seq![seq!['-', '-'] + key, value]);
            &&& cli.flags == parsed(before).flags.insert(key, value)
            &&& cli.positionals == parsed(before).positionals
        }),
{
    reveal_strlit("--");
    assert(seq!['-', '-'] =~= "--"@);
    let pair = seq!["--"@ + key, value];
    lemma_flag_argument(key);
    assert(!names_flag(value)) by {
        if names_flag(value) {
            assert("--"@[0] == value[0] && "--"@[1] == value[1]);
        }
    }
    pieces_are_read_in_turn(CliText::empty(), before, pair);
    assert(after_first(parsed(before), pair) == parsed(before).with_flag(key, value));
    assert(pair.skip(2) =~= Seq::<Seq<char>>::empty());
    assert(parsed_onto(parsed(before).with_flag(key, value), pair.skip(2)) == parsed(
        before,
    ).with_flag(key, value));
}

/// An argument without two dashes in front, after no argument or after another
/// such argument that is itself no flag, is one more positional and sets no flag.
pub proof fn bare_argument_is_a_positional(before: Seq<Seq<char>>, a: Seq<char>)
    requires
        a.len() < 2 || a[0] != '-' || a[1] != '-',
        before.len() == 0 || before.last().len() < 2 || before.last()[0] != '-' || before.last()[1]
            != '-',
    ensures
        parsed(before + seq![a]).positionals == parsed(before).positionals.push(a),
        parsed(before + seq![a]).flags == parsed(before).flags,
{
    reveal_strlit("--");
    let last = seq![a];
    assert(!names_flag(a)) by {
        if names_flag(a) {
            assert("--"@[0] == a[0] && "--"@[1] == a[1]);
        }
    }
    if before.len() > 0 {
        assert(!names_flag(before.last())) by {
            if names_flag(before.last()) {
                assert("--"@[0] == before.last()[0] && "--"@[1] == before.last()[1]);
            }
        }
    }
    pieces_are_read_in_turn(CliText::empty(), before, last);
    assert(last.skip(1) =~= Seq::<Seq<char>>::empty());
    assert(parsed_onto(parsed(before).with_positional(a), last.skip(1)) == parsed(
        before,
    ).with_positional(a));
}

/// What a command line says of a flag: its value, its number where that denotes
/// one, and whether it is switched on, which takes one of six words.
pub proof fn flags_are_asked_by_name(cli: CliText, key: Seq<char>, v: Seq<char>)
    ensures
        cli.value(key) == Some(v) <==> cli.flags.contains_key(key) && cli.flags[key] == v,
        cli.number(key) == Some(v) <==> cli.flags.contains_key(key) && cli.flags[key] == v
            && is_number_text(v),
        forall|default: Seq<char>|
            cli.number(key) is None ==> #[trigger] cli.number_or(key, default) == default,
        forall|default: Seq<char>|
            cli.number(key) == Some(v) ==> #[trigger] cli.number_or(key, default) == v,
        cli.is_on(key) <==> cli.flags.contains_key(key) && (cli.flags[key] == "1"@
            || cli.flags[key] == "on"@ || cli.flags[key] == "true"@ || cli.flags[key] == "yes"@
            || cli.flags[key] == "ff"@ || cli.flags[key] == "y"@),
{
}

} // verus!
