//! Collision-free names for snapshots.
//!
//! A name is the time-formatted template with every `$COUNTER$` replaced by
//! the decimal counter. A name that is already taken is skipped by counting
//! on; every successful save counts on once more.
use std::fmt::Write;
use std::path::PathBuf;
use vstd::prelude::*;

verus! {

/// Why a snapshot could not be saved.
#[derive(Debug, Clone, Copy, PartialEq, Eq, Structural)]
pub enum SaveError {
    /// The template holds a time format that cannot be rendered.
    BadTemplate,
    /// Every counter value up to the largest one gives a taken name.
    NoFreeName,
    /// Writing the snapshot failed.
    WriteFailed,
}

/// The placeholder for the counter.
pub open spec fn counter_token() -> Seq<char> {
    seq!['$', 'C', 'O', 'U', 'N', 'T', 'E', 'R', '$']
}

pub open spec fn digit_char(d: nat) -> char {
    if d == 0 {
        '0'
    } else if d == 1 {
        '1'
    } else if d == 2 {
        '2'
    } else if d == 3 {
        '3'
    } else if d == 4 {
        '4'
    } else if d == 5 {
        '5'
    } else if d == 6 {
        '6'
    } else if d == 7 {
        '7'
    } else if d == 8 {
        '8'
    } else {
        '9'
    }
}

/// The decimal digits of `n`, without leading zeros.
pub open spec fn decimal(n: nat) -> Seq<char>
    decreases n,
{
    if n < 10 {
        seq![digit_char(n)]
    } else {
        decimal(n / 10) + seq![digit_char(n % 10)]
    }
}

/// `s` with every occurrence of `pat` replaced by `rep`, scanning from the
/// left without overlaps.
pub open spec fn replace_all(s: Seq<char>, pat: Seq<char>, rep: Seq<char>) -> Seq<char>
    decreases s.len(),
{
    if pat.len() == 0 || s.len() < pat.len() {
        s
    } else if s.subrange(0, pat.len() as int) == pat {
        rep + replace_all(s.subrange(pat.len() as int, s.len() as int), pat, rep)
    } else {
        seq![s[0]] + replace_all(s.subrange(1, s.len() as int), pat, rep)
    }
}

/// The file name for the time-formatted template `stamp` and counter value
/// `counter`.
pub open spec fn file_name(stamp: Seq<char>, counter: nat) -> Seq<char> {
    replace_all(stamp, counter_token(), decimal(counter))
}

/// `is_taken` answered `true` for a string whose characters are `name`.
pub open spec fn reported_taken<E: Fn(&String) -> bool>(is_taken: E, name: Seq<char>) -> bool {
    exists|s: String| s@ == name && #[trigger] is_taken.ensures((&s,), true)
}

fn digit_str(d: usize) -> (r: &'static str)
    requires
        d < 10,
    ensures
        r@ == seq![digit_char(d as nat)],
{
    if d == 0 {
        proof {
            reveal_strlit("0");
        }
        "0"
    } else if d == 1 {
        proof {
            reveal_strlit("1");
        }
        "1"
    } else if d == 2 {
        proof {
            reveal_strlit("2");
        }
        "2"
    } else if d == 3 {
        proof {
            reveal_strlit("3");
        }
        "3"
    } else if d == 4 {
        proof {
            reveal_strlit("4");
        }
        "4"
    } else if d == 5 {
        proof {
            reveal_strlit("5");
        }
        "5"
    } else if d == 6 {
        proof {
            reveal_strlit("6");
        }
        "6"
    } else if d == 7 {
        proof {
            reveal_strlit("7");
        }
        "7"
    } else if d == 8 {
        proof {
            reveal_strlit("8");
        }
        "8"
    } else {
        proof {
            reveal_strlit("9");
        }
        "9"
    }
}

/// The decimal representation of `n`.
pub fn decimal_string(n: usize) -> (r: String)
    ensures
        r@ == decimal(n as nat),
    decreases n,
{
    if n < 10 {
        let mut s = String::new();
        s.append(digit_str(n));
        assert(s@ =~= decimal(n as nat));
        s
    } else {
        let mut s = decimal_string(n / 10);
        s.append(digit_str(n % 10));
        s
    }
}

/// Whether the placeholder starts at character `i` of `s`.
fn token_at(s: &str, len: usize, i: usize) -> (r: bool)
    requires
        len == s@.len(),
        i <= len,
    ensures
        r == (i + counter_token().len() <= len && s@.subrange(i as int, i + counter_token().len())
            == counter_token()),
{
    let token = "$COUNTER$";
    proof {
        reveal_strlit("$COUNTER$");
    }
    assert(token@ =~= counter_token());
    if len - i < 9 {
        return false;
    }
    let mut k: usize = 0;
    while k < 9
        invariant
            len == s@.len(),
            i + 9 <= len,
            token@ == counter_token(),
            0 <= k <= 9,
            forall|j: int| 0 <= j < k ==> s@[i + j] == counter_token()[j],
        decreases 9 - k,
    {
        if s.get_char(i + k) != token.get_char(k) {
            assert(s@.subrange(i as int, i + 9)[k as int] != counter_token()[k as int]);
            return false;
        }
        k += 1;
    }
    assert(s@.subrange(i as int, i + 9) =~= counter_token());
    true
}

/// `s` with every `$COUNTER$` replaced by `rep`.
pub fn replace_counter(s: &str, rep: &str) -> (r: String)
    ensures
        r@ == replace_all(s@, counter_token(), rep@),
{
    let len = s.unicode_len();
    let mut out = String::new();
    let mut i: usize = 0;
    assert(s@.subrange(0, len as int) =~= s@);
    while i < len
        invariant
            len == s@.len(),
            0 <= i <= len,
            out@ + replace_all(s@.subrange(i as int, len as int), counter_token(), rep@)
                == replace_all(s@, counter_token(), rep@),
        decreases len - i,
    {
        let ghost rest = s@.subrange(i as int, len as int);
        if token_at(s, len, i) {
            assert(rest.subrange(0, 9) =~= s@.subrange(i as int, i + 9));
            assert(rest.subrange(9, rest.len() as int) =~= s@.subrange(i + 9, len as int));
            out.append(rep);
            i += 9;
        } else {
            proof {
                if rest.len() >= 9 {
                    assert(rest.subrange(0, 9) =~= s@.subrange(i as int, i + 9));
                }
            }
            assert(rest.subrange(1, rest.len() as int) =~= s@.subrange(i + 1, len as int));
            out.append(s.substring_char(i, i + 1));
            i += 1;
        }
        assert(out@ + replace_all(s@.subrange(i as int, len as int), counter_token(), rep@)
            =~= replace_all(s@, counter_token(), rep@));
    }
    assert(s@.subrange(len as int, len as int) =~= Seq::<char>::empty());
    assert(out@ =~= replace_all(s@, counter_token(), rep@));
    out
}

/// The name of a snapshot for a time-formatted template and a counter value.
pub fn snapshot_name(stamp: &str, counter: usize) -> (r: String)
    ensures
        r@ == file_name(stamp@, counter as nat),
{
    let digits = decimal_string(counter);
    replace_counter(stamp, digits.as_str())
}

/// Relies on chrono's `Local::now` and `DateTime::format`: renders the local
/// time now into `template`, or gives `None` when the template holds a format
/// item that cannot be rendered.
#[verifier::external_body]
fn format_local_now(template: &str) -> (r: Option<String>) {
    let mut s = String::new();
    match write!(s, "{}", chrono::Local::now().format(template)) {
        Ok(()) => Some(s),
        Err(_) => None,
    }
}

/// Where snapshots go, how they are named, and the counter for the names.
#[derive(Debug)]
pub struct SnapshotRepo {
    counter: usize,
    path: PathBuf,
    name: String,
}

impl SnapshotRepo {
    pub closed spec fn counter_spec(&self) -> usize {
        self.counter
    }

    pub closed spec fn path_spec(&self) -> PathBuf {
        self.path
    }

    pub closed spec fn name_spec(&self) -> Seq<char> {
        self.name@
    }

    /// A repository in the directory `path`, naming snapshots after the
    /// template `name`, with its counter at zero. `name` should hold
    /// `$COUNTER$`, which is replaced by the counter, and may hold chrono's
    /// time formats.
    pub fn from_path_and_namepattern(path: PathBuf, name: String) -> (r: SnapshotRepo)
        ensures
            r.counter_spec() == 0,
            r.path_spec() == path,
            r.name_spec() == name@,
    {
        SnapshotRepo { counter: 0, path, name }
    }

    pub fn counter(&self) -> (r: usize)
        ensures
            r == self.counter_spec(),
    {
        self.counter
    }

    pub fn path(&self) -> (r: &PathBuf)
        ensures
            *r == self.path_spec(),
    {
        &self.path
    }

    pub fn name(&self) -> (r: &String)
        ensures
            r@ == self.name_spec(),
    {
        &self.name
    }

    /// Finds the first free name for `stamp`, counting on from the current
    /// counter past every name that `is_taken` reports as taken. The counter
    /// is left at the free name's value. `None` when no value below the
    /// largest one gives a free name.
    pub fn get_filename<E>(&mut self, stamp: &str, is_taken: E) -> (r: Option<String>) where
        E: Fn(&String) -> bool,

        requires
            forall|s: &String| #[trigger] is_taken.requires((s,)),
        ensures
            old(self).counter_spec() <= final(self).counter_spec(),
            final(self).path_spec() == old(self).path_spec(),
            final(self).name_spec() == old(self).name_spec(),
            forall|k: int|
                old(self).counter_spec() <= k < final(self).counter_spec() ==> reported_taken(
                    is_taken,
                    #[trigger] file_name(stamp@, k as nat),
                ),
            match r {
                Some(name) => {
                    &&& final(self).counter_spec() < usize::MAX
                    &&& name@ == file_name(stamp@, final(self).counter_spec() as nat)
                    &&& is_taken.ensures((&name,), false)
                },
                None => final(self).counter_spec() == usize::MAX,
            },
    {
        while self.counter < usize::MAX
            invariant
                forall|s: &String| #[trigger] is_taken.requires((s,)),
                old(self).counter_spec() <= self.counter_spec(),
                self.path_spec() == old(self).path_spec(),
                self.name_spec() == old(self).name_spec(),
                forall|k: int|
                    old(self).counter_spec() <= k < self.counter_spec() ==> reported_taken(
                        is_taken,
                        #[trigger] file_name(stamp@, k as nat),
                    ),
            decreases usize::MAX - self.counter_spec(),
        {
            let candidate = snapshot_name(stamp, self.counter);
            if !is_taken(&candidate) {
                return Some(candidate);
            }
            proof {
                assert(reported_taken(is_taken, file_name(stamp@, self.counter as nat)));
            }
            self.counter = self.counter + 1;
        }
        None
    }

    /// Saves a snapshot under the first free name for `stamp` (see
    /// `get_filename`) by calling `write` with that name, which reports
    /// whether the snapshot was written. On success the counter is one past
    /// the name's value and the name is returned.
    pub fn save_frame<E, W>(&mut self, stamp: &str, is_taken: E, write: W) -> (r: Result<
        String,
        SaveError,
    >) where E: Fn(&String) -> bool, W: Fn(&String) -> bool
        requires
            forall|s: &String| #[trigger] is_taken.requires((s,)),
            forall|s: &String| #[trigger] write.requires((s,)),
        ensures
            old(self).counter_spec() <= final(self).counter_spec(),
            final(self).path_spec() == old(self).path_spec(),
            final(self).name_spec() == old(self).name_spec(),
            match r {
                Ok(name) => {
                    &&& final(self).counter_spec() >= 1
                    &&& name@ == file_name(stamp@, (final(self).counter_spec() - 1) as nat)
                    &&& is_taken.ensures((&name,), false)
                    &&& write.ensures((&name,), true)
                    &&& forall|k: int|
                        old(self).counter_spec() <= k < final(self).counter_spec() - 1
                            ==> reported_taken(is_taken, #[trigger] file_name(stamp@, k as nat))
                },
                Err(SaveError::NoFreeName) => {
                    &&& final(self).counter_spec() == usize::MAX
                    &&& forall|k: int|
                        old(self).counter_spec() <= k < usize::MAX ==> reported_taken(
                            is_taken,
                            #[trigger] file_name(stamp@, k as nat),
                        )
                },
                Err(SaveError::WriteFailed) => {
                    &&& exists|name: String|
                        name@ == file_name(stamp@, final(self).counter_spec() as nat)
                            && #[trigger] write.ensures((&name,), false)
                    &&& forall|k: int|
                        old(self).counter_spec() <= k < final(self).counter_spec()
                            ==> reported_taken(is_taken, #[trigger] file_name(stamp@, k as nat))
                },
                Err(SaveError::BadTemplate) => false,
            },
    {
        match self.get_filename(stamp, is_taken) {
            None => Err(SaveError::NoFreeName),
            Some(name) => {
                if write(&name) {
                    self.counter = self.counter + 1;
                    Ok(name)
                } else {
                    Err(SaveError::WriteFailed)
                }
            },
        }
    }

    /// Saves a snapshot as `save_frame` does, with the repository's template
    /// rendered at the local time now. `BadTemplate` when the template
    /// cannot be rendered; the counter is then unchanged.
    pub fn save_frame_now<E, W>(&mut self, is_taken: E, write: W) -> (r: Result<
        String,
        SaveError,
    >) where E: Fn(&String) -> bool, W: Fn(&String) -> bool
        requires
            forall|s: &String| #[trigger] is_taken.requires((s,)),
            forall|s: &String| #[trigger] write.requires((s,)),
        ensures
            old(self).counter_spec() <= final(self).counter_spec(),
            final(self).path_spec() == old(self).path_spec(),
            final(self).name_spec() == old(self).name_spec(),
            r == Err::<String, SaveError>(SaveError::BadTemplate) ==> final(self).counter_spec()
                == old(self).counter_spec(),
            r matches Ok(name) ==> is_taken.ensures((&name,), false) && write.ensures(
                (&name,),
                true,
            ) && final(self).counter_spec() >= 1,
    {
        match format_local_now(self.name.as_str()) {
            None => Err(SaveError::BadTemplate),
            Some(stamp) => self.save_frame(stamp.as_str(), is_taken, write),
        }
    }
}

} // verus!
