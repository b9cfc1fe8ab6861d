//! The transcription history database: where it is kept, which rows a
//! listing returns, and which recordings are deleted along with the rows.

use vstd::prelude::*;
use std::path::PathBuf;
use crate::paths::{join_path, joined_path};

verus! {

/// Keeps the history database `history.db` in the application's data
/// directory.
pub struct DbManager {
    db_path: PathBuf,
}

impl DbManager {
    /// The database file.
    pub closed spec fn path(&self) -> PathBuf {
        self.db_path
    }

    /// A manager for the database file `history.db` in `app_data_dir`.
    pub fn for_data_dir(app_data_dir: &PathBuf) -> (r: Self)
        ensures
            r.path() == joined_path(*app_data_dir, "history.db"@),
    {
        DbManager { db_path: join_path(app_data_dir, "history.db") }
    }

    /// The database file.
    pub fn db_path(&self) -> (r: &PathBuf)
        ensures
            *r == self.path(),
    {
        &self.db_path
    }
}

/// The values of the rows that could be read, in order.
pub open spec fn ok_values<T, E>(rows: Seq<Result<T, E>>) -> Seq<T>
    decreases rows.len(),
{
    if rows.len() == 0 {
        seq![]
    } else {
        let rest = ok_values(rows.drop_last());
        match rows.last() {
            Ok(v) => rest.push(v),
            Err(_) => rest,
        }
    }
}

/// Every readable row is kept, in order: the rows of two runs give the
/// two listings one after the other.
pub proof fn law_ok_values_append<T, E>(first: Seq<Result<T, E>>, rest: Seq<Result<T, E>>)
    ensures
        ok_values(first + rest) == ok_values(first) + ok_values(rest),
    decreases rest.len(),
{
    if rest.len() == 0 {
        assert(first + rest =~= first);
        assert(ok_values(first) + ok_values(rest) =~= ok_values(first));
    } else {
        let shorter = rest.drop_last();
        law_ok_values_append(first, shorter);
        assert((first + rest).drop_last() =~= first + shorter);
        assert((first + rest).last() == rest.last());
        match rest.last() {
            Ok(v) => {
                assert(ok_values(first + rest) =~= ok_values(first) + ok_values(shorter).push(v));
            },
            Err(_) => {},
        }
    }
}

/// A readable row gives its value, and a row that failed to read gives
/// nothing.
pub proof fn law_ok_values_single<T, E>(v: T, e: E)
    ensures
        ok_values(seq![Ok::<T, E>(v)]) == seq![v],
        ok_values(seq![Err::<T, E>(e)]) == Seq::<T>::empty(),
{
    let good = seq![Ok::<T, E>(v)];
    let bad = seq![Err::<T, E>(e)];
    assert(good.len() == 1 && good.last() == Ok::<T, E>(v));
    assert(bad.len() == 1 && bad.last() == Err::<T, E>(e));
    assert(good.drop_last() =~= Seq::<Result<T, E>>::empty());
    assert(bad.drop_last() =~= Seq::<Result<T, E>>::empty());
    assert(ok_values(Seq::<Result<T, E>>::empty()) == Seq::<T>::empty());
    assert(ok_values(good) == ok_values(good.drop_last()).push(v));
    assert(Seq::<T>::empty().push(v) =~= seq![v]);
    assert(ok_values(bad) == ok_values(bad.drop_last()));
}

/// The listing has one value for each readable row.
pub proof fn law_ok_values_count<T, E>(rows: Seq<Result<T, E>>)
    ensures
        ok_values(rows).len() == rows.filter(|r: Result<T, E>| r is Ok).len(),
    decreases rows.len(),
{
    reveal_with_fuel(Seq::filter, 1);
    if rows.len() > 0 {
        law_ok_values_count(rows.drop_last());
    }
}

/// The rows that could be read, in the order they came; rows that failed
/// to read are left out.
pub fn collect_rows<T, E>(rows: Vec<Result<T, E>>) -> (r: Vec<T>)
    ensures
        r@ == ok_values(rows@),
{
    let ghost all = rows@;
    let mut out: Vec<T> = Vec::new();
    for row in it: rows
        invariant
            it.seq() == all,
            out@ == ok_values(all.take(it.index() as int)),
    {
        proof {
            assert(all.take(it.index() + 1).drop_last() =~= all.take(it.index() as int));
        }
        match row {
            Ok(v) => out.push(v),
            Err(_) => {},
        }
    }
    assert(all.take(all.len() as int) =~= all);
    out
}

/// The recording files named by the rows that could be read and name one,
/// in order.
pub open spec fn stored_audio_paths<E>(rows: Seq<Result<Option<String>, E>>) -> Seq<Seq<char>>
    decreases rows.len(),
{
    if rows.len() == 0 {
        seq![]
    } else {
        let rest = stored_audio_paths(rows.drop_last());
        match rows.last() {
            Ok(Some(p)) => rest.push(p@),
            _ => rest,
        }
    }
}

/// Every recording named by a readable row is deleted, in order: the rows
/// of two runs give the two lists of files one after the other.
pub proof fn law_stored_audio_paths_append<E>(
    first: Seq<Result<Option<String>, E>>,
    rest: Seq<Result<Option<String>, E>>,
)
    ensures
        stored_audio_paths(first + rest) == stored_audio_paths(first) + stored_audio_paths(rest),
    decreases rest.len(),
{
    if rest.len() == 0 {
        assert(first + rest =~= first);
        assert(stored_audio_paths(first) + stored_audio_paths(rest) =~= stored_audio_paths(first));
    } else {
        let shorter = rest.drop_last();
        law_stored_audio_paths_append(first, shorter);
        assert((first + rest).drop_last() =~= first + shorter);
        assert((first + rest).last() == rest.last());
        match rest.last() {
            Ok(Some(p)) => {
                assert(stored_audio_paths(first + rest) =~= stored_audio_paths(first)
                    + stored_audio_paths(shorter).push(p@));
            },
            _ => {},
        }
    }
}

/// The recording files to delete along with the rows: the paths named by
/// the rows that could be read and name one, in order.
pub fn audio_files_to_remove<E>(rows: Vec<Result<Option<String>, E>>) -> (r: Vec<String>)
    ensures
        r@.map_values(|s: String| s@) == stored_audio_paths(rows@),
{
    let ghost all = rows@;
    let mut out: Vec<String> = Vec::new();
    for row in it: rows
        invariant
            it.seq() == all,
            out@.map_values(|s: String| s@) == stored_audio_paths(all.take(it.index() as int)),
    {
        proof {
            assert(all.take(it.index() + 1).drop_last() =~= all.take(it.index() as int));
        }
        let ghost before = out@;
        match row {
            Ok(Some(p)) => {
                out.push(p);
                assert(out@.map_values(|s: String| s@) =~= before.map_values(|s: String| s@).push(
                    out@.last()@,
                ));
            },
            _ => {},
        }
    }
    assert(all.take(all.len() as int) =~= all);
    out
}

} // verus!
