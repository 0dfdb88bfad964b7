//! Whether a directory looks like a Mithka TDLib database directory.
//!
//! Slot 0 is the directory that itself contains `td.binlog` and `files/`.
//! Other accounts live in `account-N` children of that folder. A parent that
//! only contains `account-*` and no `td.binlog` is refused so TDLib does not
//! create a fresh database beside the real accounts. The caller looks at the
//! file system; the verdict is decided here.

use vstd::prelude::*;
use crate::rss::store::text_lt;
use crate::textutil::{chars_of, starts_with_seq, string_of};

verus! {

/// What the file system shows of a database directory.
#[derive(Clone, Debug)]
pub struct DatabaseProbe {
    pub exists: bool,
    pub is_dir: bool,
    /// `td.binlog` is a regular file in the directory.
    pub has_binlog: bool,
    /// `files` is a directory in the directory.
    pub has_files_dir: bool,
    /// Each entry of the directory: its name, and whether it is a directory.
    pub entries: Vec<(String, bool)>,
}

pub open spec fn entries_view(v: Seq<(String, bool)>) -> Seq<(Seq<char>, bool)> {
    v.map_values(|e: (String, bool)| (e.0@, e.1))
}

/// `x` placed before the first name that sorts after it.
pub open spec fn insert_text(s: Seq<Seq<char>>, x: Seq<char>) -> Seq<Seq<char>>
    decreases s.len(),
{
    if s.len() == 0 {
        seq![x]
    } else if text_lt(x, s[0]) {
        seq![x] + s
    } else {
        seq![s[0]] + insert_text(s.drop_first(), x)
    }
}

/// Names in `String` order.
pub open spec fn sort_texts(s: Seq<Seq<char>>) -> Seq<Seq<char>>
    decreases s.len(),
{
    if s.len() == 0 {
        s
    } else {
        insert_text(sort_texts(s.drop_last()), s.last())
    }
}

/// The `account-*` directories among the entries, in entry order.
pub open spec fn account_dirs(entries: Seq<(Seq<char>, bool)>) -> Seq<Seq<char>>
    decreases entries.len(),
{
    if entries.len() == 0 {
        Seq::empty()
    } else {
        let rest = account_dirs(entries.drop_last());
        let e = entries.last();
        if starts_with_seq(e.0, "account-"@) && e.1 {
            rest.push(e.0)
        } else {
            rest
        }
    }
}

/// Names joined by `, `.
pub open spec fn join_names(s: Seq<Seq<char>>) -> Seq<char>
    decreases s.len(),
{
    if s.len() == 0 {
        Seq::empty()
    } else if s.len() == 1 {
        s[0]
    } else {
        join_names(s.drop_last()) + ", "@ + s.last()
    }
}

pub open spec fn missing_dir_error(dir: Seq<char>) -> Seq<char> {
    "database directory does not exist: "@ + dir
}

pub open spec fn not_dir_error(dir: Seq<char>) -> Seq<char> {
    "database path is not a directory: "@ + dir
}

pub open spec fn no_files_warning(dir: Seq<char>) -> Seq<char> {
    "no files/ directory in "@ + dir + ". Mithka sets files_directory to this path; TDLib may create it."@
}

pub open spec fn parent_error(dir: Seq<char>, accounts: Seq<Seq<char>>) -> Seq<char> {
    "no td.binlog in "@ + dir + ". This looks like the parent tdlib folder with accounts ("@ + join_names(accounts)
        + "). Pass the slot directory that itself contains td.binlog: the slot 0 directory, or one of those account-N directories."@
}

pub open spec fn fresh_warning(dir: Seq<char>) -> Seq<char> {
    "no td.binlog in "@ + dir + ". TDLib will create a new empty database and will not reuse a Mithka login."@
}

/// The verdict on a directory, shown as `dir`: warnings to print, or the
/// reason it is refused.
pub open spec fn verdict_spec(dir: Seq<char>, p: DatabaseProbe) -> Result<Seq<Seq<char>>, Seq<char>> {
    if !p.exists {
        Err(missing_dir_error(dir))
    } else if !p.is_dir {
        Err(not_dir_error(dir))
    } else if p.has_binlog {
        if p.has_files_dir { Ok(Seq::empty()) } else { Ok(seq![no_files_warning(dir)]) }
    } else {
        let accounts = sort_texts(account_dirs(entries_view(p.entries@)));
        if accounts.len() > 0 {
            Err(parent_error(dir, accounts))
        } else {
            Ok(seq![fresh_warning(dir)])
        }
    }
}

fn append_str(out: &mut Vec<char>, s: &str)
    ensures
        final(out)@ == old(out)@ + s@,
{
    let c = chars_of(s);
    crate::textutil::append_range(out, c.as_slice(), 0, c.len());
    assert(c@.subrange(0, c@.len() as int) =~= c@);
}

fn text_before(a: &str, b: &str) -> (r: bool)
    ensures
        r == text_lt(a@, b@),
{
    let ac = chars_of(a);
    let bc = chars_of(b);
    crate::rss::store::text_before_chars(ac.as_slice(), bc.as_slice())
}

proof fn lemma_insert_text_at(s: Seq<Seq<char>>, x: Seq<char>, j: int)
    requires
        0 <= j <= s.len(),
        forall|k: int| 0 <= k < j ==> !text_lt(x, #[trigger] s[k]),
        j == s.len() || text_lt(x, s[j]),
    ensures
        insert_text(s, x) == s.insert(j, x),
    decreases s.len(),
{
    if s.len() == 0 {
        assert(insert_text(s, x) =~= s.insert(0, x));
    } else if j == 0 {
        assert(insert_text(s, x) =~= s.insert(0, x));
    } else {
        let t = s.drop_first();
        assert forall|k: int| 0 <= k < j - 1 implies !text_lt(x, #[trigger] t[k]) by {
            assert(t[k] == s[k + 1]);
        }
        if j < s.len() {
            assert(t[j - 1] == s[j]);
        }
        lemma_insert_text_at(t, x, j - 1);
        assert(insert_text(s, x) =~= s.insert(j, x));
    }
}

/// The verdict on a directory, shown as `dir`: warnings to print, or the
/// reason it is refused.
pub fn database_verdict(dir: &str, probe: &DatabaseProbe) -> (r: Result<Vec<String>, String>)
    ensures
        match (r, verdict_spec(dir@, *probe)) {
            (Ok(w), Ok(s)) => w@.map_values(|x: String| x@) == s,
            (Err(m), Err(s)) => m@ == s,
            _ => false,
        },
{
    if !probe.exists {
        let mut out: Vec<char> = Vec::new();
        append_str(&mut out, "database directory does not exist: ");
        append_str(&mut out, dir);
        return Err(string_of(out.as_slice()));
    }
    if !probe.is_dir {
        let mut out: Vec<char> = Vec::new();
        append_str(&mut out, "database path is not a directory: ");
        append_str(&mut out, dir);
        return Err(string_of(out.as_slice()));
    }
    if probe.has_binlog {
        let mut warnings: Vec<String> = Vec::new();
        if !probe.has_files_dir {
            let mut out: Vec<char> = Vec::new();
            append_str(&mut out, "no files/ directory in ");
            append_str(&mut out, dir);
            append_str(&mut out, ". Mithka sets files_directory to this path; TDLib may create it.");
            warnings.push(string_of(out.as_slice()));
        }
        assert(warnings@.map_values(|x: String| x@) =~= (if probe.has_files_dir {
            Seq::<Seq<char>>::empty()
        } else {
            seq![no_files_warning(dir@)]
        }));
        return Ok(warnings);
    }
    let ghost ev = entries_view(probe.entries@);
    let mut accounts: Vec<String> = Vec::new();
    let mut i: usize = 0;
    while i < probe.entries.len()
        invariant
            i <= probe.entries.len(),
            ev == entries_view(probe.entries@),
            accounts@.map_values(|x: String| x@) == sort_texts(account_dirs(ev.take(i as int))),
        decreases probe.entries.len() - i,
    {
        assert(ev.take(i + 1).drop_last() =~= ev.take(i as int));
        let name = &probe.entries[i].0;
        let nc = chars_of(name.as_str());
        let prefix = chars_of("account-");
        if crate::textutil::matches_at(nc.as_slice(), prefix.as_slice(), 0) && probe.entries[i].1 {
            let ghost sorted = accounts@.map_values(|x: String| x@);
            let mut j: usize = 0;
            while j < accounts.len() && !text_before(name.as_str(), accounts[j].as_str())
                invariant
                    j <= accounts.len(),
                    sorted == accounts@.map_values(|x: String| x@),
                    forall|k: int| 0 <= k < j ==> !text_lt(name@, #[trigger] sorted[k]),
                decreases accounts.len() - j,
            {
                j += 1;
            }
            proof {
                lemma_insert_text_at(sorted, name@, j as int);
                let f = account_dirs(ev.take(i as int));
                assert(f.push(name@).drop_last() =~= f);
            }
            accounts.insert(j, name.clone());
            assert(accounts@.map_values(|x: String| x@) =~= sorted.insert(j as int, name@));
        }
        i += 1;
    }
    assert(ev.take(ev.len() as int) =~= ev);
    if accounts.len() > 0 {
        let mut out: Vec<char> = Vec::new();
        append_str(&mut out, "no td.binlog in ");
        append_str(&mut out, dir);
        append_str(&mut out, ". This looks like the parent tdlib folder with accounts (");
        let ghost names = accounts@.map_values(|x: String| x@);
        let ghost head = out@;
        let mut k: usize = 0;
        while k < accounts.len()
            invariant
                k <= accounts.len(),
                names == accounts@.map_values(|x: String| x@),
                out@ == head + join_names(names.take(k as int)),
            decreases accounts.len() - k,
        {
            assert(names.take(k + 1).drop_last() =~= names.take(k as int));
            if k > 0 {
                append_str(&mut out, ", ");
            }
            append_str(&mut out, accounts[k].as_str());
            proof {
                if k == 0 {
                    assert(names.take(1) =~= seq![names[0]]);
                    assert(names.take(0) =~= Seq::<Seq<char>>::empty());
                }
            }
            k += 1;
        }
        assert(names.take(names.len() as int) =~= names);
        append_str(
            &mut out,
            "). Pass the slot directory that itself contains td.binlog: the slot 0 directory, or one of those account-N directories.",
        );
        return Err(string_of(out.as_slice()));
    }
    let mut out: Vec<char> = Vec::new();
    append_str(&mut out, "no td.binlog in ");
    append_str(&mut out, dir);
    append_str(&mut out, ". TDLib will create a new empty database and will not reuse a Mithka login.");
    let w = vec![string_of(out.as_slice())];
    assert(w@.map_values(|x: String| x@) =~= seq![fresh_warning(dir@)]);
    Ok(w)
}

} // verus!
