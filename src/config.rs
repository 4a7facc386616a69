//! The user's configuration: command, script and interpreter nicknames, and the edits
//! that the `config` subcommands make to it. Loading and storing the file is the
//! caller's.

use vstd::prelude::*;
use vstd::string::*;
use crate::cli::ConfigCommands;
use crate::text::{lemma_text_lt_total, same_text, text_less, text_lt};

verus! {

broadcast use vstd::string::group_string_axioms;

/// The map that a list of `(key, value)` pairs stands for; a later pair wins.
pub open spec fn to_map(s: Seq<(String, String)>) -> Map<Seq<char>, Seq<char>>
    decreases s.len(),
{
    if s.len() == 0 {
        Map::empty()
    } else {
        to_map(s.drop_last()).insert(s.last().0@, s.last().1@)
    }
}

/// No key occurs twice.
pub open spec fn keys_unique(s: Seq<(String, String)>) -> bool {
    forall|i: int, j: int| 0 <= i < j < s.len() ==> s[i].0@ != s[j].0@
}

proof fn lemma_absent(s: Seq<(String, String)>, k: Seq<char>)
    requires
        forall|i: int| 0 <= i < s.len() ==> s[i].0@ != k,
    ensures
        !to_map(s).contains_key(k),
    decreases s.len(),
{
    if s.len() > 0 {
        lemma_absent(s.drop_last(), k);
    }
}

proof fn lemma_present(s: Seq<(String, String)>, i: int)
    requires
        keys_unique(s),
        0 <= i < s.len(),
    ensures
        to_map(s).contains_key(s[i].0@),
        to_map(s)[s[i].0@] == s[i].1@,
    decreases s.len(),
{
    if i < s.len() - 1 {
        lemma_present(s.drop_last(), i);
    }
}

proof fn lemma_remove(s: Seq<(String, String)>, i: int)
    requires
        keys_unique(s),
        0 <= i < s.len(),
    ensures
        to_map(s.remove(i)) == to_map(s).remove(s[i].0@),
        keys_unique(s.remove(i)),
    decreases s.len(),
{
    let k = s[i].0@;
    if i == s.len() - 1 {
        assert(s.remove(i) =~= s.drop_last());
        lemma_absent(s.drop_last(), k);
        assert(to_map(s).remove(k) =~= to_map(s.drop_last()));
    } else {
        lemma_remove(s.drop_last(), i);
        assert(s.remove(i).drop_last() =~= s.drop_last().remove(i));
        assert(s.remove(i).last() == s.last());
        assert(to_map(s.remove(i)) =~= to_map(s).remove(k));
    }
}

/// Keys ascend strictly from each pair to the next.
pub open spec fn sorted_keys(s: Seq<(String, String)>) -> bool {
    forall|k: int| 0 <= k < s.len() - 1 ==> text_lt(#[trigger] s[k].0@, s[k + 1].0@)
}

#[verifier::opaque]
spec fn holds_pairs(m: Map<Seq<char>, Seq<char>>, s: Seq<(String, String)>) -> bool {
    forall|k: int| 0 <= k < s.len() ==> #[trigger] m.get(s[k].0@) == Some(s[k].1@)
}

#[verifier::opaque]
spec fn keys_from(s: Seq<(String, String)>, src: Seq<(String, String)>, n: int) -> bool {
    forall|k: int|
        #![trigger s[k]]
        0 <= k < s.len() ==> exists|j: int| 0 <= j < n && #[trigger] src[j].0@ == s[k].0@
}

#[verifier::opaque]
spec fn covers(s: Seq<(String, String)>, src: Seq<(String, String)>, n: int) -> bool {
    forall|j: int|
        0 <= j < n ==> exists|k: int| 0 <= k < s.len() && s[k].0@ == #[trigger] src[j].0@
}

/// Puts `entry` where its key keeps the keys ascending.
fn insert_sorted(r: &mut Vec<(String, String)>, entry: (String, String)) -> (j: usize)
    requires
        sorted_keys(old(r)@),
        forall|k: int| 0 <= k < old(r)@.len() ==> old(r)@[k].0@ != entry.0@,
    ensures
        j <= old(r)@.len(),
        final(r)@ == old(r)@.insert(j as int, entry),
        sorted_keys(final(r)@),
{
    let mut j: usize = 0;
    while j < r.len() && !text_less(entry.0.as_str(), r[j].0.as_str())
        invariant
            j <= r@.len(),
            forall|k: int| 0 <= k < j ==> !text_lt(entry.0@, #[trigger] r@[k].0@),
        decreases r@.len() - j,
    {
        j = j + 1;
    }
    proof {
        if j > 0 {
            lemma_text_lt_total(entry.0@, r@[j - 1].0@);
        }
    }
    let ghost before = r@;
    r.insert(j, entry);
    proof {
        assert forall|k: int| 0 <= k < r@.len() - 1 implies text_lt(
            #[trigger] r@[k].0@,
            r@[k + 1].0@,
        ) by {
            if k + 1 < j {
                assert(r@[k] == before[k] && r@[k + 1] == before[k + 1]);
            } else if k + 1 == j {
                assert(r@[k] == before[k]);
            } else if k == j {
                assert(r@[k + 1] == before[k]);
            } else {
                assert(r@[k] == before[k - 1] && r@[k + 1] == before[k]);
            }
        }
    }
    j
}

proof fn lemma_fresh_key(src: Seq<(String, String)>, s: Seq<(String, String)>, i: int)
    requires
        0 <= i < src.len(),
        forall|a: int, b: int| 0 <= a < b < src.len() ==> src[a].0@ != src[b].0@,
        keys_from(s, src, i),
    ensures
        forall|k: int| 0 <= k < s.len() ==> s[k].0@ != src[i].0@,
{
    reveal(keys_from);
    assert forall|k: int| 0 <= k < s.len() implies s[k].0@ != src[i].0@ by {
        let jj = choose|jj: int| 0 <= jj < i && #[trigger] src[jj].0@ == s[k].0@;
        assert(src[jj].0@ != src[i].0@);
    }
}

proof fn lemma_insert_keeps(
    m: Map<Seq<char>, Seq<char>>,
    src: Seq<(String, String)>,
    before: Seq<(String, String)>,
    after: Seq<(String, String)>,
    j: int,
    i: int,
)
    requires
        0 <= i < src.len(),
        0 <= j <= before.len(),
        after == before.insert(j, after[j]),
        after[j].0@ == src[i].0@,
        after[j].1@ == src[i].1@,
        m.get(src[i].0@) == Some(src[i].1@),
        holds_pairs(m, before),
        keys_from(before, src, i),
        covers(before, src, i),
    ensures
        holds_pairs(m, after),
        keys_from(after, src, i + 1),
        covers(after, src, i + 1),
{
    reveal(holds_pairs);
    reveal(keys_from);
    reveal(covers);
    assert forall|k: int| 0 <= k < after.len() implies #[trigger] m.get(after[k].0@) == Some(
        after[k].1@,
    ) by {
        if k < j {
            assert(after[k] == before[k]);
        } else if k > j {
            assert(after[k] == before[k - 1]);
        }
    }
    assert forall|k: int| #![trigger after[k]] 0 <= k < after.len() implies exists|x: int|
        0 <= x < i + 1 && #[trigger] src[x].0@ == after[k].0@ by {
        if k < j {
            assert(after[k] == before[k]);
        } else if k > j {
            assert(after[k] == before[k - 1]);
        } else {
            assert(src[i].0@ == after[k].0@);
        }
    }
    assert forall|x: int| 0 <= x < i + 1 implies exists|k: int|
        0 <= k < after.len() && after[k].0@ == #[trigger] src[x].0@ by {
        if x == i {
            assert(after[j].0@ == src[x].0@);
        } else {
            let k = choose|k: int| 0 <= k < before.len() && before[k].0@ == src[x].0@;
            if k < j {
                assert(after[k] == before[k]);
            } else {
                assert(after[k + 1] == before[k]);
            }
        }
    }
}

/// What an edit of the configuration came to.
#[derive(Debug, PartialEq, Eq)]
pub enum EditOutcome {
    /// The configuration was changed and should be stored.
    Changed,
    /// The key is already set, to this value; nothing was changed without leave to overwrite.
    Exists(String),
    /// The key to remove was not set; nothing was changed.
    NotFound,
}

/// `after` and `r` are what setting `key` to `value` in `before` gives: an existing
/// key is kept, and reported, unless `overwrite` is given.
pub open spec fn added(
    before: Map<Seq<char>, Seq<char>>,
    after: Map<Seq<char>, Seq<char>>,
    key: Seq<char>,
    value: Seq<char>,
    overwrite: bool,
    r: EditOutcome,
) -> bool {
    match before.get(key) {
        Some(v) if !overwrite => r matches EditOutcome::Exists(e) && e@ == v && after == before,
        _ => r is Changed && after == before.insert(key, value),
    }
}

/// `after` and `r` are what removing `key` from `before` gives.
pub open spec fn removed(
    before: Map<Seq<char>, Seq<char>>,
    after: Map<Seq<char>, Seq<char>>,
    key: Seq<char>,
    r: EditOutcome,
) -> bool {
    &&& after == before.remove(key)
    &&& before.contains_key(key) ==> r is Changed
    &&& !before.contains_key(key) ==> r is NotFound
}

/// A table of nicknames: each key at most once.
pub struct Nicknames {
    entries: Vec<(String, String)>,
}

impl View for Nicknames {
    type V = Map<Seq<char>, Seq<char>>;

    closed spec fn view(&self) -> Map<Seq<char>, Seq<char>> {
        to_map(self.entries@)
    }
}

impl Nicknames {
    /// Each key is held once.
    pub closed spec fn wf(&self) -> bool {
        keys_unique(self.entries@)
    }

    /// An empty table.
    pub fn new() -> (r: Nicknames)
        ensures
            r.wf(),
            r@ == Map::<Seq<char>, Seq<char>>::empty(),
    {
        Nicknames { entries: Vec::new() }
    }

    fn position(&self, key: &str) -> (r: Option<usize>)
        ensures
            r matches Some(i) ==> i < self.entries@.len() && self.entries@[i as int].0@ == key@,
            r is None ==> forall|i: int|
                0 <= i < self.entries@.len() ==> self.entries@[i].0@ != key@,
    {
        let mut i: usize = 0;
        while i < self.entries.len()
            invariant
                i <= self.entries@.len(),
                forall|k: int| 0 <= k < i ==> self.entries@[k].0@ != key@,
            decreases self.entries@.len() - i,
        {
            if same_text(self.entries[i].0.as_str(), key) {
                return Some(i);
            }
            i = i + 1;
        }
        None
    }

    /// The value set for `key`.
    pub fn get(&self, key: &str) -> (r: Option<&String>)
        requires
            self.wf(),
        ensures
            r matches Some(v) ==> self@.get(key@) == Some(v@),
            r is None ==> self@.get(key@) is None,
    {
        match self.position(key) {
            Some(i) => {
                proof {
                    lemma_present(self.entries@, i as int);
                }
                Some(&self.entries[i].1)
            },
            None => {
                proof {
                    lemma_absent(self.entries@, key@);
                }
                None
            },
        }
    }

    /// Sets `key` to `value`, replacing any earlier value.
    pub fn insert(&mut self, key: &str, value: &str)
        requires
            old(self).wf(),
        ensures
            final(self).wf(),
            final(self)@ == old(self)@.insert(key@, value@),
    {
        let ghost before = self.entries@;
        let ghost mut unset = self.entries@;
        match self.position(key) {
            Some(i) => {
                proof {
                    lemma_remove(self.entries@, i as int);
                }
                self.entries.remove(i);
                proof {
                    unset = self.entries@;
                    assert(to_map(unset) == to_map(before).remove(key@));
                }
            },
            None => {
                proof {
                    lemma_absent(self.entries@, key@);
                    assert(to_map(before).remove(key@) =~= to_map(before));
                }
            },
        }
        proof {
            assert forall|i: int| 0 <= i < unset.len() implies unset[i].0@ != key@ by {
                if unset[i].0@ == key@ {
                    lemma_present(unset, i);
                }
            }
        }
        self.entries.push((String::from_str(key), String::from_str(value)));
        proof {
            assert(self.entries@.drop_last() =~= unset);
            assert(to_map(self.entries@) =~= to_map(before).insert(key@, value@));
        }
    }

    /// Removes `key`; says whether it was set.
    pub fn remove(&mut self, key: &str) -> (r: bool)
        requires
            old(self).wf(),
        ensures
            final(self).wf(),
            r == old(self)@.contains_key(key@),
            final(self)@ == old(self)@.remove(key@),
    {
        match self.position(key) {
            Some(i) => {
                proof {
                    lemma_remove(self.entries@, i as int);
                    lemma_present(self.entries@, i as int);
                }
                self.entries.remove(i);
                true
            },
            None => {
                proof {
                    lemma_absent(self.entries@, key@);
                    assert(to_map(self.entries@).remove(key@) =~= to_map(self.entries@));
                }
                false
            },
        }
    }

    /// Does the table hold no nickname?
    pub fn is_empty(&self) -> (r: bool)
        requires
            self.wf(),
        ensures
            r == (self@ == Map::<Seq<char>, Seq<char>>::empty()),
    {
        if self.entries.len() == 0 {
            assert(self@ =~= Map::<Seq<char>, Seq<char>>::empty());
            true
        } else {
            proof {
                lemma_present(self.entries@, 0);
                assert(!(self@ =~= Map::<Seq<char>, Seq<char>>::empty()));
            }
            false
        }
    }

    /// The pairs of the table, each key once.
    pub fn pairs(&self) -> (r: &Vec<(String, String)>)
        requires
            self.wf(),
        ensures
            forall|i: int|
                0 <= i < r@.len() ==> #[trigger] self@.get(r@[i].0@) == Some(r@[i].1@),
            forall|i: int, j: int| 0 <= i < j < r@.len() ==> r@[i].0@ != r@[j].0@,
            forall|k: Seq<char>|
                self@.contains_key(k) ==> exists|i: int| 0 <= i < r@.len() && #[trigger] r@[i].0@ == k,
    {
        proof {
            assert forall|i: int| 0 <= i < self.entries@.len() implies #[trigger] self@.get(
                self.entries@[i].0@,
            ) == Some(self.entries@[i].1@) by {
                lemma_present(self.entries@, i);
            }
            assert forall|k: Seq<char>| self@.contains_key(k) implies exists|i: int|
                0 <= i < self.entries@.len() && #[trigger] self.entries@[i].0@ == k by {
                if forall|i: int| 0 <= i < self.entries@.len() ==> self.entries@[i].0@ != k {
                    lemma_absent(self.entries@, k);
                }
            }
        }
        &self.entries
    }

    /// The pairs of the table, by key in ascending order.
    pub fn sorted_pairs(&self) -> (r: Vec<(String, String)>)
        requires
            self.wf(),
        ensures
            forall|i: int|
                0 <= i < r@.len() ==> #[trigger] self@.get(r@[i].0@) == Some(r@[i].1@),
            forall|k: Seq<char>|
                self@.contains_key(k) ==> exists|i: int| 0 <= i < r@.len() && #[trigger] r@[i].0@ == k,
            sorted_keys(r@),
    {
        let src = self.pairs();
        let mut r: Vec<(String, String)> = Vec::new();
        let mut i: usize = 0;
        proof {
            reveal(holds_pairs);
            reveal(keys_from);
            reveal(covers);
        }
        while i < src.len()
            invariant
                i <= src@.len(),
                forall|k: int|
                    0 <= k < src@.len() ==> #[trigger] self@.get(src@[k].0@) == Some(src@[k].1@),
                forall|a: int, b: int| 0 <= a < b < src@.len() ==> src@[a].0@ != src@[b].0@,
                holds_pairs(self@, r@),
                keys_from(r@, src@, i as int),
                covers(r@, src@, i as int),
                sorted_keys(r@),
            decreases src@.len() - i,
        {
            let entry = (src[i].0.clone(), src[i].1.clone());
            proof {
                lemma_fresh_key(src@, r@, i as int);
            }
            let ghost before = r@;
            let j = insert_sorted(&mut r, entry);
            proof {
                lemma_insert_keeps(self@, src@, before, r@, j as int, i as int);
            }
            i = i + 1;
        }
        proof {
            reveal(holds_pairs);
            reveal(covers);
            assert forall|k: Seq<char>| self@.contains_key(k) implies exists|x: int|
                0 <= x < r@.len() && #[trigger] r@[x].0@ == k by {
                let jj = choose|jj: int| 0 <= jj < src@.len() && #[trigger] src@[jj].0@ == k;
                assert(src@[jj].0@ == k);
            }
        }
        r
    }

    /// Sets `key` to `value` unless it is set already and `overwrite` is false.
    pub fn add(&mut self, key: &str, value: &str, overwrite: bool) -> (r: EditOutcome)
        requires
            old(self).wf(),
        ensures
            final(self).wf(),
            added(old(self)@, final(self)@, key@, value@, overwrite, r),
    {
        if !overwrite {
            if let Some(existing) = self.get(key) {
                return EditOutcome::Exists(existing.clone());
            }
        }
        self.insert(key, value);
        EditOutcome::Changed
    }

    /// Removes `key`, if it is set.
    pub fn delete(&mut self, key: &str) -> (r: EditOutcome)
        requires
            old(self).wf(),
        ensures
            final(self).wf(),
            removed(old(self)@, final(self)@, key@, r),
    {
        if self.remove(key) {
            EditOutcome::Changed
        } else {
            EditOutcome::NotFound
        }
    }
}

/// `input` resolved through the nickname table `m`: its value if it is a nickname,
/// else `input` itself.
pub open spec fn nickname_or(m: Map<Seq<char>, Seq<char>>, input: Seq<char>) -> Seq<char> {
    match m.get(input) {
        Some(v) => v,
        None => input,
    }
}

/// The user's configuration.
pub struct KubixConfig {
    /// Command nicknames: nickname to command line.
    pub commands: Nicknames,
    /// Script nicknames: nickname to script path.
    pub scripts: Nicknames,
    /// Interpreters by file extension.
    pub interpreters: Nicknames,
}

impl KubixConfig {
    pub open spec fn wf(&self) -> bool {
        self.commands.wf() && self.scripts.wf() && self.interpreters.wf()
    }

    /// The command that `input` is a nickname of, or `input` itself.
    pub fn resolve_command(&self, input: &str) -> (r: String)
        requires
            self.wf(),
        ensures
            r@ == nickname_or(self.commands@, input@),
    {
        match self.commands.get(input) {
            Some(c) => c.clone(),
            None => String::from_str(input),
        }
    }

    /// The script path that `input` is a nickname of, or `input` itself.
    pub fn resolve_script(&self, input: &str) -> (r: String)
        requires
            self.wf(),
        ensures
            r@ == nickname_or(self.scripts@, input@),
    {
        match self.scripts.get(input) {
            Some(c) => c.clone(),
            None => String::from_str(input),
        }
    }

    /// The interpreter configured for the file extension `extension`.
    pub fn resolve_interpreter(&self, extension: &str) -> (r: Option<String>)
        requires
            self.wf(),
        ensures
            match r {
                Some(i) => self.interpreters@.get(extension@) == Some(i@),
                None => self.interpreters@.get(extension@) is None,
            },
    {
        match self.interpreters.get(extension) {
            Some(i) => Some(i.clone()),
            None => None,
        }
    }
}

pub open spec fn default_commands_map() -> Map<Seq<char>, Seq<char>> {
    map!["shell"@ => "$BIN_PATH/python manage.py shell"@, "ps"@ => "ps aux"@]
}

pub open spec fn default_scripts_map() -> Map<Seq<char>, Seq<char>> {
    map!["deploy"@ => "/Users/myuser/scripts/deploy.sh"@, "setup"@ => "~/scripts/setup.py"@]
}

pub open spec fn default_interpreters_map() -> Map<Seq<char>, Seq<char>> {
    map!["py"@ => "/opt/app/venv/bin/python"@]
}

/// The command nicknames of a fresh configuration.
pub fn default_commands() -> (r: Nicknames)
    ensures
        r.wf(),
        r@ == default_commands_map(),
{
    let mut t = Nicknames::new();
    t.insert("shell", "$BIN_PATH/python manage.py shell");
    t.insert("ps", "ps aux");
    assert(t@ =~= default_commands_map());
    t
}

/// The script nicknames of a fresh configuration.
pub fn default_scripts() -> (r: Nicknames)
    ensures
        r.wf(),
        r@ == default_scripts_map(),
{
    let mut t = Nicknames::new();
    t.insert("deploy", "/Users/myuser/scripts/deploy.sh");
    t.insert("setup", "~/scripts/setup.py");
    assert(t@ =~= default_scripts_map());
    t
}

/// The interpreters of a fresh configuration.
pub fn default_interpreters() -> (r: Nicknames)
    ensures
        r.wf(),
        r@ == default_interpreters_map(),
{
    let mut t = Nicknames::new();
    t.insert("py", "/opt/app/venv/bin/python");
    assert(t@ =~= default_interpreters_map());
    t
}

impl Default for KubixConfig {
    fn default() -> (r: KubixConfig)
        ensures
            r.wf(),
            r.commands@ == default_commands_map(),
            r.scripts@ == default_scripts_map(),
            r.interpreters@ == default_interpreters_map(),
    {
        KubixConfig {
            commands: default_commands(),
            scripts: default_scripts(),
            interpreters: default_interpreters(),
        }
    }
}

/// Adds a command nickname; an existing one is replaced only with `overwrite`.
pub fn add_command(config: &mut KubixConfig, nickname: &str, command: &str, overwrite: bool) -> (r:
    EditOutcome)
    requires
        old(config).wf(),
    ensures
        final(config).wf(),
        added(old(config).commands@, final(config).commands@, nickname@, command@, overwrite, r),
        final(config).scripts@ == old(config).scripts@,
        final(config).interpreters@ == old(config).interpreters@,
{
    config.commands.add(nickname, command, overwrite)
}

/// Adds a script nickname; an existing one is replaced only with `overwrite`.
pub fn add_script(config: &mut KubixConfig, nickname: &str, script: &str, overwrite: bool) -> (r:
    EditOutcome)
    requires
        old(config).wf(),
    ensures
        final(config).wf(),
        added(old(config).scripts@, final(config).scripts@, nickname@, script@, overwrite, r),
        final(config).commands@ == old(config).commands@,
        final(config).interpreters@ == old(config).interpreters@,
{
    config.scripts.add(nickname, script, overwrite)
}

/// Sets the interpreter for a file extension; an existing one is replaced only with
/// `overwrite`.
pub fn add_interpreter(
    config: &mut KubixConfig,
    extension: &str,
    interpreter_path: &str,
    overwrite: bool,
) -> (r: EditOutcome)
    requires
        old(config).wf(),
    ensures
        final(config).wf(),
        added(
            old(config).interpreters@,
            final(config).interpreters@,
            extension@,
            interpreter_path@,
            overwrite,
            r,
        ),
        final(config).commands@ == old(config).commands@,
        final(config).scripts@ == old(config).scripts@,
{
    config.interpreters.add(extension, interpreter_path, overwrite)
}

/// Removes a command nickname.
pub fn remove_command(config: &mut KubixConfig, nickname: &str) -> (r: EditOutcome)
    requires
        old(config).wf(),
    ensures
        final(config).wf(),
        removed(old(config).commands@, final(config).commands@, nickname@, r),
        final(config).scripts@ == old(config).scripts@,
        final(config).interpreters@ == old(config).interpreters@,
{
    config.commands.delete(nickname)
}

/// Removes a script nickname.
pub fn remove_script(config: &mut KubixConfig, nickname: &str) -> (r: EditOutcome)
    requires
        old(config).wf(),
    ensures
        final(config).wf(),
        removed(old(config).scripts@, final(config).scripts@, nickname@, r),
        final(config).commands@ == old(config).commands@,
        final(config).interpreters@ == old(config).interpreters@,
{
    config.scripts.delete(nickname)
}

/// Removes the custom interpreter of a file extension.
pub fn remove_interpreter(config: &mut KubixConfig, extension: &str) -> (r: EditOutcome)
    requires
        old(config).wf(),
    ensures
        final(config).wf(),
        removed(old(config).interpreters@, final(config).interpreters@, extension@, r),
        final(config).commands@ == old(config).commands@,
        final(config).scripts@ == old(config).scripts@,
{
    config.interpreters.delete(extension)
}

/// What a `config` subcommand came to.
pub enum ConfigAction {
    /// Show the configuration.
    Show,
    /// An edit was made, or refused; see the outcome.
    Edited(EditOutcome),
}

/// Carries out a `config` subcommand on `config`; no subcommand shows the configuration.
/// `overwrite` is the user's leave to replace an existing nickname.
pub fn handle_config_command(
    config: &mut KubixConfig,
    command: Option<&ConfigCommands>,
    overwrite: bool,
) -> (r: ConfigAction)
    requires
        old(config).wf(),
    ensures
        final(config).wf(),
        match command {
            None | Some(ConfigCommands::List) => r is Show && *final(config) == *old(config),
            Some(ConfigCommands::AddCommand { nickname, command }) => r matches ConfigAction::Edited(
                o,
            ) && added(old(config).commands@, final(config).commands@, nickname@, command@, overwrite, o)
                && final(config).scripts@ == old(config).scripts@
                && final(config).interpreters@ == old(config).interpreters@,
            Some(ConfigCommands::AddScript { nickname, script }) => r matches ConfigAction::Edited(
                o,
            ) && added(old(config).scripts@, final(config).scripts@, nickname@, script@, overwrite, o)
                && final(config).commands@ == old(config).commands@
                && final(config).interpreters@ == old(config).interpreters@,
            Some(ConfigCommands::AddInterpreter { extension, interpreter_path }) => r matches ConfigAction::Edited(
                o,
            ) && added(
                old(config).interpreters@,
                final(config).interpreters@,
                extension@,
                interpreter_path@,
                overwrite,
                o,
            ) && final(config).commands@ == old(config).commands@
                && final(config).scripts@ == old(config).scripts@,
            Some(ConfigCommands::RemoveCommand { nickname }) => r matches ConfigAction::Edited(o)
                && removed(old(config).commands@, final(config).commands@, nickname@, o)
                && final(config).scripts@ == old(config).scripts@
                && final(config).interpreters@ == old(config).interpreters@,
            Some(ConfigCommands::RemoveScript { nickname }) => r matches ConfigAction::Edited(o)
                && removed(old(config).scripts@, final(config).scripts@, nickname@, o)
                && final(config).commands@ == old(config).commands@
                && final(config).interpreters@ == old(config).interpreters@,
            Some(ConfigCommands::RemoveInterpreter { extension }) => r matches ConfigAction::Edited(
                o,
            ) && removed(old(config).interpreters@, final(config).interpreters@, extension@, o)
                && final(config).commands@ == old(config).commands@
                && final(config).scripts@ == old(config).scripts@,
        },
{
    match command {
        None => ConfigAction::Show,
        Some(ConfigCommands::List) => ConfigAction::Show,
        Some(ConfigCommands::AddCommand { nickname, command }) => ConfigAction::Edited(
            add_command(config, nickname.as_str(), command.as_str(), overwrite),
        ),
        Some(ConfigCommands::AddScript { nickname, script }) => ConfigAction::Edited(
            add_script(config, nickname.as_str(), script.as_str(), overwrite),
        ),
        Some(ConfigCommands::AddInterpreter { extension, interpreter_path }) => ConfigAction::Edited(
            add_interpreter(config, extension.as_str(), interpreter_path.as_str(), overwrite),
        ),
        Some(ConfigCommands::RemoveCommand { nickname }) => ConfigAction::Edited(
            remove_command(config, nickname.as_str()),
        ),
        Some(ConfigCommands::RemoveScript { nickname }) => ConfigAction::Edited(
            remove_script(config, nickname.as_str()),
        ),
        Some(ConfigCommands::RemoveInterpreter { extension }) => ConfigAction::Edited(
            remove_interpreter(config, extension.as_str()),
        ),
    }
}

} // verus!
