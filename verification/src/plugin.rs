use vstd::prelude::*;

verus! {

use vstd::string::StringExecFns;
use vstd::string::StrSliceExecFns;
use crate::text::{
    str_eq, str_starts_with, str_ends_with, spec_starts_with, spec_ends_with, lex_lt, lex_less,
    lemma_lex_lt_total, lemma_lex_lt_transitive,
};

/// An externally installed executable extending one category's behavior.
#[derive(Debug)]
pub struct Plugin {
    pub category: String,
    pub name: String,
    pub executable_path: String,
}

/// How a requested category and name pair resolved.
#[derive(Debug)]
pub enum Resolution {
    /// The name is a statically known implementation of the category.
    Builtin(String),
    /// An executable following the naming convention was found on the search
    /// path.
    External(Plugin),
    /// Neither a statically known implementation nor a matching executable.
    NotFound,
}

/// One directory of the search path with the entry names found in it, in the
/// search path's own order.
#[derive(Debug)]
pub struct SearchDir {
    pub path: String,
    pub entries: Vec<String>,
}

/// One line of a service listing.
#[derive(Debug)]
pub struct ServiceEntry {
    pub name: String,
    pub builtin: bool,
}

/// The statically known implementations: the checkout-service category ships
/// with a github service.
pub open spec fn spec_is_builtin(category: Seq<char>, name: Seq<char>) -> bool {
    category == "checkout-service"@ && name == "github"@
}

pub open spec fn spec_builtin_names(category: Seq<char>) -> Seq<Seq<char>> {
    if category == "checkout-service"@ {
        seq!["github"@]
    } else {
        Seq::empty()
    }
}

pub fn is_builtin(category: &str, name: &str) -> (r: bool)
    ensures
        r == spec_is_builtin(category@, name@),
{
    str_eq(category, "checkout-service") && str_eq(name, "github")
}

/// The executable name the naming convention gives a plugin.
pub open spec fn spec_plugin_file_name(
    prefix: Seq<char>,
    category: Seq<char>,
    name: Seq<char>,
) -> Seq<char> {
    prefix + seq!['-'] + category + seq!['-'] + name
}

pub fn plugin_file_name(prefix: &str, category: &str, name: &str) -> (r: String)
    ensures
        r@ == spec_plugin_file_name(prefix@, category@, name@),
{
    proof {
        reveal_strlit("-");
    }
    let mut s: String = prefix.to_owned();
    s.append("-");
    s.append(category);
    s.append("-");
    s.append(name);
    proof {
        assert(s@ =~= spec_plugin_file_name(prefix@, category@, name@));
    }
    s
}

/// Whether a directory entry is the wanted executable, with or without the
/// Windows executable suffix.
pub open spec fn spec_entry_matches(entry: Seq<char>, want: Seq<char>) -> bool {
    entry == want || entry == want + ".exe"@
}

fn entry_matches(entry: &str, want: &str) -> (r: bool)
    ensures
        r == spec_entry_matches(entry@, want@),
{
    if str_eq(entry, want) {
        true
    } else {
        let mut w: String = want.to_owned();
        w.append(".exe");
        str_eq(entry, w.as_str())
    }
}

/// The first entry of a directory matching the wanted executable name.
pub open spec fn spec_find_entry(entries: Seq<String>, want: Seq<char>) -> Option<Seq<char>>
    decreases entries.len(),
{
    if entries.len() == 0 {
        None
    } else if spec_entry_matches(entries[0]@, want) {
        Some(entries[0]@)
    } else {
        spec_find_entry(entries.drop_first(), want)
    }
}

/// The first match over the whole search path, in path order: the directory's
/// path and the matching entry.
pub open spec fn spec_find_plugin(dirs: Seq<SearchDir>, want: Seq<char>) -> Option<
    (Seq<char>, Seq<char>),
>
    decreases dirs.len(),
{
    if dirs.len() == 0 {
        None
    } else {
        match spec_find_entry(dirs[0].entries@, want) {
            Some(e) => Some((dirs[0].path@, e)),
            None => spec_find_plugin(dirs.drop_first(), want),
        }
    }
}

/// Resolves a category and name: a statically known name wins outright;
/// otherwise the first executable on the search path following the naming
/// convention is taken; otherwise nothing resolves.
#[verifier::loop_isolation(false)]
pub fn resolve(prefix: &str, category: &str, name: &str, search: &Vec<SearchDir>) -> (r:
    Resolution)
    ensures
        spec_is_builtin(category@, name@) ==> (r matches Resolution::Builtin(n) && n@ == name@),
        !spec_is_builtin(category@, name@) ==> match spec_find_plugin(
            search@,
            spec_plugin_file_name(prefix@, category@, name@),
        ) {
            Some(found) => r matches Resolution::External(p) && p.category@ == category@
                && p.name@ == name@ && p.executable_path@ == found.0 + seq!['/'] + found.1,
            None => r matches Resolution::NotFound,
        },
{
    if is_builtin(category, name) {
        return Resolution::Builtin(name.to_owned());
    }
    let want = plugin_file_name(prefix, category, name);
    let ghost wantv = want@;
    proof {
        assert(search@.skip(0) =~= search@);
    }
    let mut i: usize = 0;
    while i < search.len()
        invariant
            i <= search@.len(),
            spec_find_plugin(search@.skip(i as int), wantv) == spec_find_plugin(search@, wantv),
        decreases search@.len() - i,
    {
        proof {
            assert(search@.skip(i as int)[0] == search@[i as int]);
            assert(search@.skip(i as int).drop_first() =~= search@.skip(i + 1));
        }
        let dir = &search[i];
        let ghost entries = dir.entries@;
        proof {
            assert(entries.skip(0) =~= entries);
        }
        let mut j: usize = 0;
        while j < dir.entries.len()
            invariant
                j <= entries.len(),
                spec_find_entry(entries.skip(j as int), wantv) == spec_find_entry(
                    entries, wantv),
            decreases entries.len() - j,
        {
            proof {
                assert(entries.skip(j as int)[0] == entries[j as int]);
                assert(entries.skip(j as int).drop_first() =~= entries.skip(j + 1));
            }
            if entry_matches(dir.entries[j].as_str(), want.as_str()) {
                proof {
                    reveal_strlit("/");
                }
                let mut path: String = dir.path.clone();
                path.append("/");
                path.append(dir.entries[j].as_str());
                proof {
                    assert(path@ =~= dir.path@ + seq!['/'] + entries[j as int]@);
                }
                return Resolution::External(
                    Plugin {
                        category: category.to_owned(),
                        name: name.to_owned(),
                        executable_path: path,
                    },
                );
            }
            j += 1;
        }
        proof {
            assert(entries.skip(entries.len() as int) =~= Seq::<String>::empty());
        }
        i += 1;
    }
    proof {
        assert(search@.skip(search@.len() as int) =~= Seq::<SearchDir>::empty());
    }
    Resolution::NotFound
}

/// The prefix every executable of one category carries.
pub open spec fn spec_category_prefix(prefix: Seq<char>, category: Seq<char>) -> Seq<char> {
    prefix + seq!['-'] + category + seq!['-']
}

fn category_prefix(prefix: &str, category: &str) -> (r: String)
    ensures
        r@ == spec_category_prefix(prefix@, category@),
{
    proof {
        reveal_strlit("-");
    }
    let mut s: String = prefix.to_owned();
    s.append("-");
    s.append(category);
    s.append("-");
    proof {
        assert(s@ =~= spec_category_prefix(prefix@, category@));
    }
    s
}

/// The plugin name a directory entry carries for one category, where it does:
/// the entry without its optional Windows suffix and without the category's
/// prefix, where a non-empty name remains.
pub open spec fn spec_entry_name(entry: Seq<char>, pre: Seq<char>) -> Option<Seq<char>> {
    let base = if spec_ends_with(entry, ".exe"@) {
        entry.take(entry.len() - ".exe"@.len())
    } else {
        entry
    };
    if spec_starts_with(base, pre) && base.len() > pre.len() {
        Some(base.skip(pre.len() as int))
    } else {
        None
    }
}

fn entry_name(entry: &str, pre: &str) -> (r: Option<String>)
    ensures
        match r {
            Some(n) => spec_entry_name(entry@, pre@) == Some(n@),
            None => spec_entry_name(entry@, pre@) is None,
        },
{
    proof {
        reveal_strlit(".exe");
    }
    let elen = entry.unicode_len();
    let base: &str = if str_ends_with(entry, ".exe") {
        entry.substring_char(0, elen - 4)
    } else {
        entry
    };
    let blen = base.unicode_len();
    let plen = pre.unicode_len();
    if str_starts_with(base, pre) && blen > plen {
        let n = base.substring_char(plen, blen);
        proof {
            assert(n@ =~= base@.skip(plen as int));
        }
        Some(n.to_owned())
    } else {
        None
    }
}

/// Whether some directory of the search path holds an executable carrying the
/// given plugin name for the category.
pub open spec fn spec_is_external_name(
    dirs: Seq<SearchDir>,
    pre: Seq<char>,
    n: Seq<char>,
) -> bool {
    exists|i: int, j: int|
        0 <= i < dirs.len() && 0 <= j < dirs[i].entries@.len() && #[trigger] spec_entry_name(
            dirs[i].entries@[j]@,
            pre,
        ) == Some(n)
}

/// Whether a name occurs in a list of names.
pub open spec fn name_in(s: Seq<String>, n: Seq<char>) -> bool {
    exists|k: int| 0 <= k < s.len() && (#[trigger] s[k])@ == n
}

pub open spec fn sorted_names(s: Seq<String>) -> bool {
    forall|a: int, b: int| 0 <= a < b < s.len() ==> lex_lt((#[trigger] s[a])@, (#[trigger] s[b])@)
}

/// Adds one name to a sorted list of names, keeping it sorted and free of
/// repeats.
#[verifier::rlimit(60)]
fn insert_name(out: &mut Vec<String>, name: String)
    requires
        sorted_names(old(out)@),
    ensures
        sorted_names(final(out)@),
        forall|n: Seq<char>| #[trigger] name_in(final(out)@, n) <==> (name_in(old(out)@, n) || n
            == name@),
{
    let ghost prior = out@;
    let ghost nv = name@;
    let mut idx: usize = 0;
    loop
        invariant
            idx <= out@.len(),
            out@ == prior,
            nv == name@,
            forall|a: int| 0 <= a < idx ==> lex_lt((#[trigger] prior[a])@, nv),
        ensures
            idx <= out@.len(),
            out@ == prior,
            forall|a: int| 0 <= a < idx ==> lex_lt((#[trigger] prior[a])@, nv),
            idx < out@.len() ==> !lex_lt(prior[idx as int]@, nv),
        decreases out@.len() - idx,
    {
        if idx >= out.len() {
            break;
        }
        if !lex_less(out[idx].as_str(), name.as_str()) {
            proof {
                assert(!lex_lt(prior[idx as int]@, nv));
            }
            break;
        }
        proof {
            assert(lex_lt(prior[idx as int]@, nv));
        }
        idx += 1;
    }
    if idx < out.len() {
        if str_eq(out[idx].as_str(), name.as_str()) {
            proof {
                assert(prior[idx as int]@ == nv);
                assert forall|n: Seq<char>| #[trigger] name_in(out@, n) implies (name_in(
                    prior, n) || n == nv) by {}
            }
            return;
        }
    }
    proof {
        if idx < prior.len() {
            lemma_lex_lt_total(nv, prior[idx as int]@);
        }
    }
    out.insert(idx, name);
    proof {
        prior.insert_ensures(idx as int, name);
        let cur = out@;
        assert(cur[idx as int]@ == nv);
        assert forall|a: int, b: int|
            0 <= a < b < cur.len() implies lex_lt((#[trigger] cur[a])@, (#[trigger] cur[b])@) by {
            let iv = idx as int;
            if b == iv {
                assert(cur[a] == prior[a]);
            } else if a == iv {
                assert(cur[b] == prior[b - 1]);
                if iv < b - 1 {
                    lemma_lex_lt_transitive(nv, prior[iv]@, prior[b - 1]@);
                }
            } else if a < iv && b > iv {
                assert(cur[a] == prior[a]);
                assert(cur[b] == prior[b - 1]);
                if a == b - 1 {
                    lemma_lex_lt_transitive(prior[a]@, nv, prior[b - 1]@);
                }
            } else if a > iv {
                assert(cur[a] == prior[a - 1]);
                assert(cur[b] == prior[b - 1]);
            } else {
                assert(cur[a] == prior[a]);
                assert(cur[b] == prior[b]);
            }
        }
        assert forall|n: Seq<char>| #[trigger] name_in(cur, n) implies (name_in(prior, n) || n
            == nv) by {
            let k2 = choose|k2: int| 0 <= k2 < cur.len() && (#[trigger] cur[k2])@ == n;
            if k2 < idx as int {
                assert(cur[k2] == prior[k2]);
            } else if k2 > idx as int {
                assert(cur[k2] == prior[k2 - 1]);
            }
        }
        assert forall|n: Seq<char>| (name_in(prior, n) || n == nv) implies #[trigger] name_in(
            cur, n) by {
            if n == nv {
                assert(cur[idx as int]@ == n);
            } else {
                let k = choose|k: int| 0 <= k < prior.len() && (#[trigger] prior[k])@ == n;
                if k < idx as int {
                    assert(cur[k] == prior[k]);
                } else {
                    assert(cur[k + 1] == prior[k]);
                }
            }
        }
    }
}

/// Lists every available name of a category: the statically known names and
/// every plugin name found on the search path, without repeats, in
/// lexicographic order, each flagged where it is the statically known one.
#[verifier::loop_isolation(false)]
pub fn list_available(prefix: &str, category: &str, search: &Vec<SearchDir>) -> (r: Vec<
    ServiceEntry,
>)
    ensures
        sorted_entries(r@),
        forall|k: int|
            0 <= k < r@.len() ==> (#[trigger] r@[k]).builtin == spec_is_builtin(
                category@, r@[k].name@),
        forall|k: int|
            0 <= k < r@.len() ==> spec_builtin_names(category@).contains(#[trigger] r@[k].name@)
                || spec_is_external_name(search@, spec_category_prefix(prefix@, category@),
            r@[k].name@),
        forall|m: int|
            0 <= m < spec_builtin_names(category@).len() ==> listed(r@,
            #[trigger] spec_builtin_names(category@)[m]),
        forall|i: int, j: int|
            0 <= i < search@.len() && 0 <= j < search@[i].entries@.len() && (#[trigger]
            spec_entry_name(search@[i].entries@[j]@, spec_category_prefix(prefix@, category@)))
                is Some ==> listed(r@, spec_entry_name(search@[i].entries@[j]@,
            spec_category_prefix(prefix@, category@)).unwrap()),
{
    let ghost pre = spec_category_prefix(prefix@, category@);
    let mut names: Vec<String> = Vec::new();
    let ghost empty_names = names@;
    if str_eq(category, "checkout-service") {
        insert_name(&mut names, "github".to_owned());
    }
    proof {
        if category@ == "checkout-service"@ {
            assert(spec_builtin_names(category@)[0] == "github"@);
            assert(spec_builtin_names(category@).contains("github"@));
            assert(name_in(names@, "github"@));
        }
        assert forall|n: Seq<char>| #[trigger] name_in(names@, n) implies spec_builtin_names(
            category@).contains(n) || spec_is_external_name(search@, pre, n) by {
            assert(!name_in(empty_names, n));
        }
    }
    let prefix_str = category_prefix(prefix, category);
    let mut i: usize = 0;
    while i < search.len()
        invariant
            i <= search@.len(),
            prefix_str@ == pre,
            sorted_names(names@),
            forall|n: Seq<char>| #[trigger] name_in(names@, n) ==> spec_builtin_names(
                category@).contains(n) || spec_is_external_name(search@, pre, n),
            forall|m: int|
                0 <= m < spec_builtin_names(category@).len() ==> name_in(names@,
                #[trigger] spec_builtin_names(category@)[m]),
            forall|i0: int, j0: int|
                0 <= i0 < i && 0 <= j0 < search@[i0].entries@.len() && (#[trigger]
                spec_entry_name(search@[i0].entries@[j0]@, pre)) is Some ==> name_in(names@,
                spec_entry_name(search@[i0].entries@[j0]@, pre).unwrap()),
        decreases search@.len() - i,
    {
        let dir = &search[i];
        let mut j: usize = 0;
        while j < dir.entries.len()
            invariant
                j <= dir.entries@.len(),
                dir == &search@[i as int],
                i < search@.len(),
                sorted_names(names@),
                forall|n: Seq<char>| #[trigger] name_in(names@, n) ==> spec_builtin_names(
                    category@).contains(n) || spec_is_external_name(search@, pre, n),
                forall|m: int|
                    0 <= m < spec_builtin_names(category@).len() ==> name_in(names@,
                    #[trigger] spec_builtin_names(category@)[m]),
                forall|i0: int, j0: int|
                    0 <= i0 < i && 0 <= j0 < search@[i0].entries@.len() && (#[trigger]
                    spec_entry_name(search@[i0].entries@[j0]@, pre)) is Some ==> name_in(
                    names@, spec_entry_name(search@[i0].entries@[j0]@, pre).unwrap()),
                forall|j0: int|
                    0 <= j0 < j && (#[trigger] spec_entry_name(search@[i as int].entries@[j0]@,
                    pre)) is Some ==> name_in(names@, spec_entry_name(
                    search@[i as int].entries@[j0]@, pre).unwrap()),
            decreases dir.entries@.len() - j,
        {
            match entry_name(dir.entries[j].as_str(), prefix_str.as_str()) {
                Some(n) => {
                    let ghost nv = n@;
                    insert_name(&mut names, n);
                    proof {
                        assert(spec_entry_name(search@[i as int].entries@[j as int]@, pre)
                            == Some(nv));
                        assert(spec_is_external_name(search@, pre, nv));
                        assert(name_in(names@, nv));
                    }
                },
                None => {},
            }
            j += 1;
        }
        i += 1;
    }
    let r = tag_names(names, category);
    proof {
        assert forall|k: int|
            0 <= k < r@.len() implies spec_builtin_names(category@).contains(
            #[trigger] r@[k].name@) || spec_is_external_name(search@, pre, r@[k].name@) by {
            assert(names@[k]@ == r@[k].name@);
            assert(name_in(names@, r@[k].name@));
        }
    }
    r
}

pub open spec fn sorted_entries(s: Seq<ServiceEntry>) -> bool {
    forall|a: int, b: int|
        0 <= a < b < s.len() ==> lex_lt((#[trigger] s[a]).name@, (#[trigger] s[b]).name@)
}

/// Whether a listing holds a name.
pub open spec fn listed(s: Seq<ServiceEntry>, n: Seq<char>) -> bool {
    exists|k: int| 0 <= k < s.len() && (#[trigger] s[k]).name@ == n
}

/// Turns sorted names into listing lines, flagging the statically known one.
#[verifier::loop_isolation(false)]
fn tag_names(names: Vec<String>, category: &str) -> (r: Vec<ServiceEntry>)
    requires
        sorted_names(names@),
    ensures
        sorted_entries(r@),
        r@.len() == names@.len(),
        forall|k: int| 0 <= k < r@.len() ==> (#[trigger] r@[k]).name@ == names@[k]@,
        forall|k: int|
            0 <= k < r@.len() ==> (#[trigger] r@[k]).builtin == spec_is_builtin(
                category@, r@[k].name@),
        forall|n: Seq<char>| #[trigger] listed(r@, n) <==> name_in(names@, n),
{
    let mut out: Vec<ServiceEntry> = Vec::new();
    let mut i: usize = 0;
    while i < names.len()
        invariant
            i <= names@.len(),
            out@.len() == i,
            forall|k: int| 0 <= k < i ==> (#[trigger] out@[k]).name@ == names@[k]@,
            forall|k: int|
                0 <= k < i ==> (#[trigger] out@[k]).builtin == spec_is_builtin(
                    category@, out@[k].name@),
        decreases names@.len() - i,
    {
        let name = names[i].clone();
        let flag = is_builtin(category, name.as_str());
        out.push(ServiceEntry { name, builtin: flag });
        i += 1;
    }
    proof {
        assert forall|n: Seq<char>| #[trigger] listed(out@, n) implies name_in(names@, n) by {
            let k = choose|k: int| 0 <= k < out@.len() && (#[trigger] out@[k]).name@ == n;
            assert(names@[k]@ == n);
        }
        assert forall|n: Seq<char>| name_in(names@, n) implies #[trigger] listed(out@, n) by {
            let k = choose|k: int| 0 <= k < names@.len() && (#[trigger] names@[k])@ == n;
            assert(out@[k].name@ == n);
        }
    }
    out
}

/// The listing as it is shown: a heading, then one line per name, the
/// statically known name marked as the default.
pub open spec fn spec_service_lines(entries: Seq<ServiceEntry>) -> Seq<char>
    decreases entries.len(),
{
    if entries.len() == 0 {
        Seq::empty()
    } else {
        "\n - "@ + entries[0].name@ + (if entries[0].builtin {
            "\t[default]"@
        } else {
            Seq::empty()
        }) + spec_service_lines(entries.drop_first())
    }
}

pub open spec fn spec_service_list(entries: Seq<ServiceEntry>) -> Seq<char> {
    "Services:"@ + spec_service_lines(entries)
}

/// Renders a listing for display.
#[verifier::loop_isolation(false)]
pub fn format_service_list(entries: &Vec<ServiceEntry>) -> (r: String)
    ensures
        r@ == spec_service_list(entries@),
{
    let mut s: String = "Services:".to_owned();
    proof {
        assert(entries@.skip(0) =~= entries@);
    }
    let mut i: usize = 0;
    while i < entries.len()
        invariant
            i <= entries@.len(),
            s@ + spec_service_lines(entries@.skip(i as int)) == spec_service_list(entries@),
        decreases entries@.len() - i,
    {
        proof {
            assert(entries@.skip(i as int)[0] == entries@[i as int]);
            assert(entries@.skip(i as int).drop_first() =~= entries@.skip(i + 1));
        }
        let ghost before = s@;
        s.append("\n - ");
        s.append(entries[i].name.as_str());
        if entries[i].builtin {
            s.append("\t[default]");
        }
        proof {
            let mid = if entries@[i as int].builtin {
                "\t[default]"@
            } else {
                Seq::<char>::empty()
            };
            assert(s@ =~= before + ("\n - "@ + entries@[i as int].name@ + mid));
            assert(before + ("\n - "@ + entries@[i as int].name@ + mid) + spec_service_lines(
                entries@.skip(i + 1)) =~= before + ("\n - "@ + entries@[i as int].name@ + mid
                + spec_service_lines(entries@.skip(i + 1))));
        }
        i += 1;
    }
    proof {
        assert(entries@.skip(entries@.len() as int) =~= Seq::<ServiceEntry>::empty());
        assert(s@ + Seq::<char>::empty() =~= s@);
    }
    s
}

} // verus!
