//! The table of built-in commands, how a typed name finds one, and how a
//! command line is run.
use vstd::prelude::*;
use crate::commands::{BuiltinCommand, CommandInvocation, CommandResult, ResultView, lines_result};
use crate::commands::builtin::{ClearCommand, GuessCommand, HelpCommand, LsCommand, SnakeCommand};
use crate::terminal_fs::{
    FsView, ItemView, OwnedTerminalItem, TerminalFs, item_of, item_result, lookup,
};
use crate::text::{
    chars_eq_ignore_ascii_case, chars_less, chars_of, eq_ignore_ascii_case, first_token, is_ws,
    lemma_str_less_asymmetric, lemma_str_less_irreflexive, lemma_str_less_total,
    lemma_str_less_transitive, owned, push_str, split_command, str_less, string_of, strings_view,
    trim_start,
};

verus! {

/// The built-in commands, in the order the registry lists them.
#[derive(Clone, Copy, PartialEq, Eq, Structural, Debug)]
pub enum Builtin {
    Clear,
    Guess,
    Help,
    Ls,
    Snake,
}

/// A command line resolves to a built-in command or to an item of the file
/// tree.
pub enum Executable {
    Builtin(Builtin),
    External(OwnedTerminalItem),
}

pub open spec fn all_builtins() -> Seq<Builtin> {
    seq![
        Builtin::Clear,
        Builtin::Guess,
        Builtin::Help,
        Builtin::Ls,
        Builtin::Snake,
    ]
}

pub open spec fn builtin_name(b: Builtin) -> Seq<char> {
    match b {
        Builtin::Clear => ClearCommand.spec_name(),
        Builtin::Guess => GuessCommand.spec_name(),
        Builtin::Help => HelpCommand.spec_name(),
        Builtin::Ls => LsCommand.spec_name(),
        Builtin::Snake => SnakeCommand.spec_name(),
    }
}

pub open spec fn builtin_aliases(b: Builtin) -> Seq<Seq<char>> {
    match b {
        Builtin::Help => HelpCommand.spec_aliases(),
        _ => Seq::empty(),
    }
}

pub open spec fn builtin_execute(b: Builtin, target: Seq<char>, fs: FsView) -> ResultView {
    match b {
        Builtin::Clear => ClearCommand.spec_execute(target, fs),
        Builtin::Guess => GuessCommand.spec_execute(target, fs),
        Builtin::Help => HelpCommand.spec_execute(target, fs),
        Builtin::Ls => LsCommand.spec_execute(target, fs),
        Builtin::Snake => SnakeCommand.spec_execute(target, fs),
    }
}

/// Whether the typed `value` names the command: its name or an alias, with
/// ASCII case ignored.
pub open spec fn names_command(b: Builtin, value: Seq<char>) -> bool {
    ||| eq_ignore_ascii_case(builtin_name(b), value)
    ||| exists|i: int|
        0 <= i < builtin_aliases(b).len() && eq_ignore_ascii_case(
            #[trigger] builtin_aliases(b)[i],
            value,
        )
}

/// The first command among `cmds` that `value` names.
pub open spec fn first_named(cmds: Seq<Builtin>, value: Seq<char>) -> Option<Builtin>
    decreases cmds.len(),
{
    if cmds.len() == 0 {
        None
    } else if names_command(cmds[0], value) {
        Some(cmds[0])
    } else {
        first_named(cmds.drop_first(), value)
    }
}

pub open spec fn command_names() -> Seq<Seq<char>> {
    all_builtins().map_values(|b: Builtin| builtin_name(b))
}

pub open spec fn command_aliases() -> Seq<Seq<char>> {
    seq!["?"@]
}

/// The root listing of the tree, or nothing.
pub open spec fn root_listing(fs: FsView) -> Seq<Seq<char>> {
    match lookup(fs.directories, "."@) {
        Some(items) => items,
        None => Seq::empty(),
    }
}

/// Each entry sorts before every later one.
pub open spec fn strictly_sorted(s: Seq<Seq<char>>) -> bool {
    forall|i: int, j: int| 0 <= i < j < s.len() ==> str_less(#[trigger] s[i], #[trigger] s[j])
}

/// The distinct entries of `s` in sorted order.
pub open spec fn sorted_set_of(s: Seq<Seq<char>>) -> Seq<Seq<char>> {
    choose|r: Seq<Seq<char>>| strictly_sorted(r) && r.to_set() == s.to_set()
}

/// Every name the shell answers to: the commands, their aliases and the
/// root items of the tree, sorted and without repeats.
pub open spec fn available(fs: FsView) -> Seq<Seq<char>> {
    sorted_set_of(command_names() + command_aliases() + root_listing(fs))
}

/// What running the command line `input` gives.
pub open spec fn command_result(fs: FsView, input: Seq<char>) -> ResultView {
    let name = first_token(input);
    let target = trim_start(input.skip(name.len() as int));
    match first_named(all_builtins(), name) {
        Some(b) => builtin_execute(b, target, fs),
        None => match item_of(fs, name) {
            Some(item) => if target.len() == 0 {
                item_result(item, name)
            } else {
                lines_result(seq![name + ": command not found"@])
            },
            None => lines_result(
                seq![
                    name + (if target.len() == 0 {
                        ": not found"@
                    } else {
                        ": command not found"@
                    }),
                ],
            ),
        },
    }
}

/// Two strictly sorted sequences with the same elements are equal.
pub proof fn lemma_sorted_unique(a: Seq<Seq<char>>, b: Seq<Seq<char>>)
    requires
        strictly_sorted(a),
        strictly_sorted(b),
        a.to_set() == b.to_set(),
    ensures
        a == b,
    decreases a.len(),
{
    if a.len() == 0 {
        if b.len() > 0 {
            assert(b.to_set().contains(b[0]));
        }
        assert(a =~= b);
    } else if b.len() == 0 {
        assert(a.to_set().contains(a[0]));
    } else {
        assert(b.to_set().contains(a[0]));
        let k = choose|k: int| 0 <= k < b.len() && b[k] == a[0];
        assert(a.to_set().contains(b[0]));
        let m = choose|m: int| 0 <= m < a.len() && a[m] == b[0];
        if k > 0 {
            assert(str_less(b[0], b[k]));
            if m > 0 {
                assert(str_less(a[0], a[m]));
                lemma_str_less_asymmetric(a[0], b[0]);
            } else {
                lemma_str_less_irreflexive(a[0]);
            }
        }
        assert(a[0] == b[0]);
        let a1 = a.drop_first();
        let b1 = b.drop_first();
        assert forall|x: Seq<char>| a1.to_set().contains(x) <==> b1.to_set().contains(x) by {
            if a1.to_set().contains(x) {
                let i = choose|i: int| 0 <= i < a1.len() && a1[i] == x;
                assert(str_less(a[0], a[i + 1]));
                assert(b.to_set().contains(x));
                let j = choose|j: int| 0 <= j < b.len() && b[j] == x;
                if j == 0 {
                    lemma_str_less_irreflexive(x);
                }
                assert(b1[j - 1] == x);
            }
            if b1.to_set().contains(x) {
                let i = choose|i: int| 0 <= i < b1.len() && b1[i] == x;
                assert(str_less(b[0], b[i + 1]));
                assert(a.to_set().contains(x));
                let j = choose|j: int| 0 <= j < a.len() && a[j] == x;
                if j == 0 {
                    lemma_str_less_irreflexive(x);
                }
                assert(a1[j - 1] == x);
            }
        }
        assert(a1.to_set() =~= b1.to_set());
        lemma_sorted_unique(a1, b1);
        assert(a =~= seq![a[0]] + a1);
        assert(b =~= seq![b[0]] + b1);
    }
}

pub proof fn lemma_push_to_set(s: Seq<Seq<char>>, x: Seq<char>)
    ensures
        s.push(x).to_set() == s.to_set().insert(x),
{
    assert forall|y: Seq<char>| s.push(x).to_set().contains(y) <==> s.to_set().insert(x).contains(y) by {
        if s.push(x).to_set().contains(y) {
            let i = choose|i: int| 0 <= i < s.push(x).len() && s.push(x)[i] == y;
            if i < s.len() {
                assert(s[i] == y);
            }
        }
        if s.to_set().contains(y) {
            let i = choose|i: int| 0 <= i < s.len() && s[i] == y;
            assert(s.push(x)[i] == y);
        }
        if y == x {
            assert(s.push(x)[s.len() as int] == y);
        }
    }
    assert(s.push(x).to_set() =~= s.to_set().insert(x));
}

/// The views of a list of character vectors.
pub open spec fn chars_view(v: Seq<Vec<char>>) -> Seq<Seq<char>> {
    v.map_values(|c: Vec<char>| c@)
}

/// Adds `x` to a sorted list without repeats, keeping it sorted.
fn insert_sorted(v: &mut Vec<Vec<char>>, x: Vec<char>)
    requires
        strictly_sorted(chars_view(old(v)@)),
    ensures
        strictly_sorted(chars_view(final(v)@)),
        chars_view(final(v)@).to_set() == chars_view(old(v)@).to_set().insert(x@),
{
    let ghost s = chars_view(v@);
    let mut p: usize = 0;
    while p < v.len() && chars_less(&v[p], &x)
        invariant
            p <= v@.len(),
            s == chars_view(v@),
            strictly_sorted(s),
            forall|k: int| 0 <= k < p ==> str_less(#[trigger] s[k], x@),
        decreases v@.len() - p,
    {
        p = p + 1;
    }
    if p < v.len() && crate::terminal_fs::same_chars(&v[p], &x) {
        assert(s.to_set() =~= s.to_set().insert(x@)) by {
            assert(s[p as int] == x@);
        }
        return;
    }
    proof {
        if p < s.len() {
            assert(!str_less(s[p as int], x@));
            lemma_str_less_total(s[p as int], x@);
            assert(str_less(x@, s[p as int]));
        }
    }
    v.insert(p, x);
    proof {
        let n = chars_view(v@);
        assert(n =~= s.insert(p as int, x@));
        assert forall|i: int, j: int| 0 <= i < j < n.len() implies str_less(#[trigger] n[i], #[trigger] n[j]) by {
            if j < p {
            } else if j == p {
                assert(str_less(s[i], x@));
            } else if i < p {
                assert(str_less(s[i], x@));
                assert(str_less(x@, s[p as int]));
                lemma_str_less_transitive(s[i], x@, s[p as int]);
                if j - 1 > p {
                    lemma_str_less_transitive(s[i], s[p as int], s[j - 1]);
                }
            } else if i == p {
                if j - 1 > p {
                    lemma_str_less_transitive(x@, s[p as int], s[j - 1]);
                }
            } else {
                assert(str_less(s[i - 1], s[j - 1]));
            }
        }
        assert forall|y: Seq<char>| n.to_set().contains(y) <==> s.to_set().insert(x@).contains(y) by {
            if n.to_set().contains(y) {
                let i = choose|i: int| 0 <= i < n.len() && n[i] == y;
                if i < p {
                    assert(s[i] == y);
                } else if i > p {
                    assert(s[i - 1] == y);
                }
            }
            if s.to_set().contains(y) {
                let i = choose|i: int| 0 <= i < s.len() && s[i] == y;
                if i < p {
                    assert(n[i] == y);
                } else {
                    assert(n[i + 1] == y);
                }
            }
            if y == x@ {
                assert(n[p as int] == y);
            }
        }
        assert(n.to_set() =~= s.to_set().insert(x@));
    }
}

/// The distinct entries of `items`, sorted.
pub fn sorted_unique(items: &Vec<String>) -> (r: Vec<String>)
    ensures
        strings_view(r@) == sorted_set_of(strings_view(items@)),
        strictly_sorted(strings_view(r@)),
        strings_view(r@).to_set() == strings_view(items@).to_set(),
{
    let ghost all = strings_view(items@);
    let mut sorted: Vec<Vec<char>> = Vec::new();
    let mut i: usize = 0;
    assert(chars_view(sorted@).to_set() =~= all.subrange(0, 0).to_set());
    while i < items.len()
        invariant
            i <= items@.len(),
            all == strings_view(items@),
            strictly_sorted(chars_view(sorted@)),
            chars_view(sorted@).to_set() == all.subrange(0, i as int).to_set(),
        decreases items@.len() - i,
    {
        let c = chars_of(items[i].as_str());
        insert_sorted(&mut sorted, c);
        proof {
            assert(all.subrange(0, i + 1) =~= all.subrange(0, i as int).push(all[i as int]));
            lemma_push_to_set(all.subrange(0, i as int), all[i as int]);
        }
        i = i + 1;
    }
    assert(all.subrange(0, items@.len() as int) =~= all);
    let mut r: Vec<String> = Vec::new();
    let mut j: usize = 0;
    while j < sorted.len()
        invariant
            j <= sorted@.len(),
            r@.len() == j,
            forall|k: int| 0 <= k < j ==> (#[trigger] r@[k])@ == sorted@[k]@,
        decreases sorted@.len() - j,
    {
        r.push(string_of(sorted[j].as_slice()));
        j = j + 1;
    }
    assert(strings_view(r@) =~= chars_view(sorted@));
    proof {
        let res = strings_view(r@);
        assert(strictly_sorted(res) && res.to_set() == all.to_set());
        lemma_sorted_unique(res, sorted_set_of(all));
    }
    r
}

impl Builtin {
    pub fn name(&self) -> (r: &'static str)
        ensures
            r@ == builtin_name(*self),
    {
        match self {
            Builtin::Clear => ClearCommand.name(),
            Builtin::Guess => GuessCommand.name(),
            Builtin::Help => HelpCommand.name(),
            Builtin::Ls => LsCommand.name(),
            Builtin::Snake => SnakeCommand.name(),
        }
    }

    pub fn aliases(&self) -> (r: Vec<&'static str>)
        ensures
            r@.map_values(|a: &str| a@) == builtin_aliases(*self),
    {
        match self {
            Builtin::Clear => ClearCommand.aliases(),
            Builtin::Guess => GuessCommand.aliases(),
            Builtin::Help => HelpCommand.aliases(),
            Builtin::Ls => LsCommand.aliases(),
            Builtin::Snake => SnakeCommand.aliases(),
        }
    }

    pub fn execute(&self, target: &str, registry: &CommandRegistry) -> (r: CommandResult)
        requires
            registry.valid(),
        ensures
            r@ == builtin_execute(*self, target@, registry@),
    {
        match self {
            Builtin::Clear => ClearCommand.execute(target, registry),
            Builtin::Guess => GuessCommand.execute(target, registry),
            Builtin::Help => HelpCommand.execute(target, registry),
            Builtin::Ls => LsCommand.execute(target, registry),
            Builtin::Snake => SnakeCommand.execute(target, registry),
        }
    }
}

/// The built-in commands in registry order.
fn builtins() -> (r: Vec<Builtin>)
    ensures
        r@ == all_builtins(),
{
    let r = vec![
        Builtin::Clear,
        Builtin::Guess,
        Builtin::Help,
        Builtin::Ls,
        Builtin::Snake,
    ];
    assert(r@ =~= all_builtins());
    r
}

/// Whether `value` names `command`.
fn matches_command(command: Builtin, value: &Vec<char>) -> (r: bool)
    ensures
        r == names_command(command, value@),
{
    let name = chars_of(command.name());
    if chars_eq_ignore_ascii_case(&name, value) {
        return true;
    }
    let aliases = command.aliases();
    let mut i: usize = 0;
    while i < aliases.len()
        invariant
            i <= aliases@.len(),
            aliases@.map_values(|a: &str| a@) == builtin_aliases(command),
            forall|j: int| 0 <= j < i ==> !eq_ignore_ascii_case(#[trigger] builtin_aliases(command)[j], value@),
        decreases aliases@.len() - i,
    {
        let a = chars_of(aliases[i]);
        if chars_eq_ignore_ascii_case(&a, value) {
            assert(builtin_aliases(command)[i as int] == a@);
            return true;
        }
        assert(builtin_aliases(command)[i as int] == a@);
        i = i + 1;
    }
    false
}

pub proof fn lemma_first_named_skip(cmds: Seq<Builtin>, value: Seq<char>, i: int)
    requires
        0 <= i <= cmds.len(),
        forall|j: int| 0 <= j < i ==> !names_command(#[trigger] cmds[j], value),
    ensures
        first_named(cmds, value) == first_named(cmds.skip(i), value),
    decreases i,
{
    if i == 0 {
        assert(cmds.skip(0) =~= cmds);
    } else {
        let t = cmds.drop_first();
        assert forall|j: int| 0 <= j < i - 1 implies !names_command(#[trigger] t[j], value) by {
            assert(t[j] == cmds[j + 1]);
        }
        lemma_first_named_skip(t, value, i - 1);
        assert(t.skip(i - 1) =~= cmds.skip(i));
    }
}

/// The built-in command that `value` names, if any.
pub fn find(value: &str) -> (r: Option<Builtin>)
    ensures
        r == first_named(all_builtins(), value@),
{
    let cmds = builtins();
    let v = chars_of(value);
    let mut i: usize = 0;
    while i < cmds.len()
        invariant
            i <= cmds@.len(),
            cmds@ == all_builtins(),
            v@ == value@,
            forall|j: int| 0 <= j < i ==> !names_command(#[trigger] cmds@[j], value@),
        decreases cmds@.len() - i,
    {
        if matches_command(cmds[i], &v) {
            proof {
                lemma_first_named_skip(cmds@, value@, i as int);
                assert(cmds@.skip(i as int)[0] == cmds@[i as int]);
            }
            return Some(cmds[i]);
        }
        i = i + 1;
    }
    proof {
        lemma_first_named_skip(cmds@, value@, i as int);
    }
    None
}

/// The names of the built-in commands, in registry order.
pub fn names() -> (r: Vec<&'static str>)
    ensures
        r@.map_values(|s: &str| s@) == command_names(),
{
    let cmds = builtins();
    let mut r: Vec<&'static str> = Vec::new();
    let mut i: usize = 0;
    while i < cmds.len()
        invariant
            i <= cmds@.len(),
            cmds@ == all_builtins(),
            r@.len() == i,
            forall|j: int| 0 <= j < i ==> (#[trigger] r@[j])@ == builtin_name(cmds@[j]),
        decreases cmds@.len() - i,
    {
        r.push(cmds[i].name());
        i = i + 1;
    }
    assert(r@.map_values(|s: &str| s@) =~= command_names());
    r
}

/// The aliases of the built-in commands, in registry order.
pub fn aliases() -> (r: Vec<&'static str>)
    ensures
        r@.map_values(|s: &str| s@) == command_aliases(),
{
    let r = Builtin::Help.aliases();
    r
}

/// Splits a command line into the command's name and its target.
pub fn parse(input: &str) -> (r: CommandInvocation)
    requires
        input@.len() == 0 || !is_ws(input@[0]),
    ensures
        r.name@ == first_token(input@),
        r.target@ == trim_start(input@.skip(first_token(input@).len() as int)),
{
    let chars = chars_of(input);
    let (name, target) = split_command(&chars);
    CommandInvocation { name, target }
}

/// What `value` names: a built-in command, else an item of `terminal_fs`.
pub fn resolve(value: &str, terminal_fs: &TerminalFs) -> (r: Option<Executable>)
    ensures
        match r {
            Some(Executable::Builtin(b)) => first_named(all_builtins(), value@) == Some(b),
            Some(Executable::External(item)) => first_named(all_builtins(), value@) is None
                && item_of(terminal_fs@, value@) == Some(item@),
            None => first_named(all_builtins(), value@) is None && item_of(terminal_fs@, value@) is None,
        },
{
    if let Some(command) = find(value) {
        return Some(Executable::Builtin(command));
    }
    match terminal_fs.resolve_owned_item(value) {
        Some(item) => Some(Executable::External(item)),
        None => None,
    }
}

/// The commands and the file tree they work on.
pub struct CommandRegistry<'a> {
    terminal_fs: &'a TerminalFs,
}

impl<'a> View for CommandRegistry<'a> {
    type V = FsView;

    closed spec fn view(&self) -> FsView {
        self.terminal_fs@
    }
}

impl<'a> CommandRegistry<'a> {
    pub open spec fn valid(&self) -> bool {
        self@.valid()
    }

    pub fn new(terminal_fs: &'a TerminalFs) -> (r: Self)
        requires
            terminal_fs@.valid(),
        ensures
            r@ == terminal_fs@,
            r.valid(),
    {
        CommandRegistry { terminal_fs }
    }

    pub fn terminal_fs(&self) -> (r: &TerminalFs)
        ensures
            r@ == self@,
    {
        self.terminal_fs
    }

    /// The listing of the directory `target` names.
    pub fn resolve_directory(&self, target: &str) -> (r: Option<&Vec<String>>)
        ensures
            match r {
                Some(v) => lookup(self@.directories, crate::terminal_fs::normalized_target(target@))
                    == Some(strings_view(v@)),
                None => lookup(self@.directories, crate::terminal_fs::normalized_target(target@)) is None,
            },
    {
        self.terminal_fs.resolve_directory(target)
    }

    /// Every name the shell answers to, sorted and without repeats.
    pub fn available_commands(&self) -> (r: Vec<String>)
        ensures
            strings_view(r@) == available(self@),
            strictly_sorted(strings_view(r@)),
            strings_view(r@).to_set() == (command_names() + command_aliases() + root_listing(self@)).to_set(),
    {
        let mut all: Vec<String> = Vec::new();
        let ns = names();
        let mut i: usize = 0;
        while i < ns.len()
            invariant
                i <= ns@.len(),
                ns@.map_values(|s: &str| s@) == command_names(),
                strings_view(all@) == command_names().subrange(0, i as int),
            decreases ns@.len() - i,
        {
            let ghost prev = all@;
            assert(ns@.map_values(|s: &str| s@)[i as int] == ns@[i as int]@);
            all.push(owned(ns[i]));
            assert(strings_view(all@) =~= strings_view(prev).push(ns@[i as int]@));
            i = i + 1;
            assert(strings_view(all@) =~= command_names().subrange(0, i as int));
        }
        assert(command_names().subrange(0, ns@.len() as int) =~= command_names());
        let al = aliases();
        let mut j: usize = 0;
        while j < al.len()
            invariant
                j <= al@.len(),
                al@.map_values(|s: &str| s@) == command_aliases(),
                strings_view(all@) == command_names() + command_aliases().subrange(0, j as int),
            decreases al@.len() - j,
        {
            let ghost prev = all@;
            assert(al@.map_values(|s: &str| s@)[j as int] == al@[j as int]@);
            all.push(owned(al[j]));
            assert(strings_view(all@) =~= strings_view(prev).push(al@[j as int]@));
            j = j + 1;
            assert(strings_view(all@) =~= command_names() + command_aliases().subrange(0, j as int));
        }
        assert(command_aliases().subrange(0, al@.len() as int) =~= command_aliases());
        let mut root = self.terminal_fs.root_items();
        let ghost before = all@;
        all.append(&mut root);
        assert(strings_view(all@) =~= command_names() + command_aliases() + root_listing(self@));
        sorted_unique(&all)
    }

    /// What `value` names: a built-in command, else an item of the tree.
    pub fn resolve(&self, value: &str) -> (r: Option<Executable>)
        ensures
            match r {
                Some(Executable::Builtin(b)) => first_named(all_builtins(), value@) == Some(b),
                Some(Executable::External(item)) => first_named(all_builtins(), value@) is None
                    && item_of(self@, value@) == Some(item@),
                None => first_named(all_builtins(), value@) is None && item_of(self@, value@) is None,
            },
    {
        resolve(value, self.terminal_fs)
    }

    /// Runs a command line that starts with no whitespace.
    pub fn execute(&self, input: &str) -> (r: CommandResult)
        requires
            self.valid(),
            input@.len() == 0 || !is_ws(input@[0]),
        ensures
            r@ == command_result(self@, input@),
    {
        let invocation = parse(input);
        let name = string_of(invocation.name.as_slice());
        let target = string_of(invocation.target.as_slice());
        match self.resolve(name.as_str()) {
            Some(Executable::Builtin(command)) => command.execute(target.as_str(), self),
            Some(Executable::External(item)) => {
                if target.as_str().unicode_len() == 0 {
                    item.execute(name.as_str())
                } else {
                    let mut msg: Vec<char> = Vec::new();
                    push_str(&mut msg, name.as_str());
                    push_str(&mut msg, ": command not found");
                    let lines = vec![string_of(msg.as_slice())];
                    assert(strings_view(lines@) =~= seq![name@ + ": command not found"@]);
                    CommandResult::with_lines(lines)
                }
            },
            None => {
                let mut msg: Vec<char> = Vec::new();
                push_str(&mut msg, name.as_str());
                if target.as_str().unicode_len() == 0 {
                    push_str(&mut msg, ": not found");
                } else {
                    push_str(&mut msg, ": command not found");
                }
                let lines = vec![string_of(msg.as_slice())];
                assert(strings_view(lines@) =~= seq![
                    name@ + (if target@.len() == 0 {
                        ": not found"@
                    } else {
                        ": command not found"@
                    }),
                ]);
                CommandResult::with_lines(lines)
            },
        }
    }
}

} // verus!
