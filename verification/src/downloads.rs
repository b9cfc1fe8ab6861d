//! Model downloads: where a model is fetched from, how a running download
//! reacts to what happens to it, and the register of downloads that can
//! still be cancelled.

use vstd::prelude::*;
use crate::transcript::str_eq;

verus! {

/// The address a model file is downloaded from.
pub fn model_download_url(model_name: &str) -> (r: String)
    ensures
        r@ == "https://huggingface.co/ggerganov/whisper.cpp/resolve/main/"@ + model_name@,
{
    let mut r = String::new();
    r.append("https://huggingface.co/ggerganov/whisper.cpp/resolve/main/");
    r.append(model_name);
    assert(r@ =~= "https://huggingface.co/ggerganov/whisper.cpp/resolve/main/"@ + model_name@);
    r
}

/// The state a progress report announces.
#[derive(Clone, Copy, Debug, PartialEq, Eq)]
pub enum DownloadStatus {
    Downloading,
    Completed,
    Cancelled,
    Error,
}

impl DownloadStatus {
    /// The name of the state in progress reports.
    pub fn name(&self) -> (r: &'static str)
        ensures
            *self == DownloadStatus::Downloading ==> r@ == "downloading"@,
            *self == DownloadStatus::Completed ==> r@ == "completed"@,
            *self == DownloadStatus::Cancelled ==> r@ == "cancelled"@,
            *self == DownloadStatus::Error ==> r@ == "error"@,
    {
        match self {
            DownloadStatus::Downloading => "downloading",
            DownloadStatus::Completed => "completed",
            DownloadStatus::Cancelled => "cancelled",
            DownloadStatus::Error => "error",
        }
    }
}

/// How far a report says the download has come: nothing, all of it, or
/// `done` bytes of `total` (with `total > 0`), shown as a percentage.
#[derive(Clone, Copy, Debug, PartialEq, Eq)]
pub enum Progress {
    Nothing,
    Whole,
    Part { done: u64, total: u64 },
}

/// The progress reported after a piece was written, with `done` bytes of
/// an announced `total` written: the fraction when the size is known,
/// nothing when it is not.
pub open spec fn written_progress(total: nat, done: nat) -> Progress {
    if total > 0 {
        Progress::Part { done: done as u64, total: total as u64 }
    } else {
        Progress::Nothing
    }
}

/// While a download of known size runs, each report is the fraction
/// written: `done` bytes of `total`; of a download of unknown size no
/// fraction is reported.
pub proof fn law_written_progress_is_fraction(total: nat, done: nat)
    requires
        total <= u64::MAX,
        done <= u64::MAX,
    ensures
        total > 0 ==> written_progress(total, done) == (Progress::Part {
            done: done as u64,
            total: total as u64,
        }),
        total > 0 ==> (written_progress(total, done) matches Progress::Part { done: d, total: t }
            && d == done && t == total),
        total == 0 ==> written_progress(total, done) == Progress::Nothing,
{
}

/// Progress never falls from one written piece to the next: the reported
/// total stays the same and the bytes done do not decrease (and a download
/// of unknown size reports nothing throughout).
pub proof fn law_progress_never_falls(total: nat, before: nat, after: nat)
    requires
        before <= after <= u64::MAX,
        total <= u64::MAX,
    ensures
        written_progress(total, before) matches Progress::Part { done: a, total: t } ==> (
        written_progress(total, after) matches Progress::Part { done: b, total: t2 } && t2 == t
            && a <= b),
        written_progress(total, before) is Nothing ==> written_progress(total, after) is Nothing,
{
}

/// A progress report, and what to do besides sending it.
pub struct DownloadReport {
    pub status: DownloadStatus,
    pub progress: Progress,
    pub error: Option<String>,
    /// The partly written file is to be removed.
    pub remove_file: bool,
    /// The download is over.
    pub finished: bool,
}

/// What happened to a running download.
pub enum DownloadEvent {
    /// It was cancelled, or the means to cancel it went away.
    Cancelled,
    /// A piece of `len` bytes arrived and was written to the file.
    Written { len: u64 },
    /// A piece arrived but writing it failed.
    WriteFailed { message: String },
    /// Receiving failed.
    ReceiveFailed { message: String },
    /// Everything arrived.
    Finished,
}

/// The report for a download that failed before any data arrived (the
/// request, or creating the file, failed).
pub fn failure_report(message: String) -> (r: DownloadReport)
    ensures
        r.status == DownloadStatus::Error,
        r.progress == Progress::Nothing,
        r.error == Some(message),
        !r.remove_file,
        r.finished,
{
    DownloadReport {
        status: DownloadStatus::Error,
        progress: Progress::Nothing,
        error: Some(message),
        remove_file: false,
        finished: true,
    }
}

/// A running download: the bytes received so far and the announced size
/// (zero when the server announced none).
pub struct ModelDownload {
    downloaded: u64,
    total: u64,
    finished: bool,
}

impl ModelDownload {
    /// Bytes written so far.
    pub closed spec fn downloaded(&self) -> nat {
        self.downloaded as nat
    }

    /// The announced size, zero when unknown.
    pub closed spec fn total(&self) -> nat {
        self.total as nat
    }

    /// Whether the download is over.
    pub closed spec fn is_finished(&self) -> bool {
        self.finished
    }

    /// A download whose response announced `content_length` bytes.
    pub fn new(content_length: Option<u64>) -> (r: Self)
        ensures
            r.downloaded() == 0,
            r.total() == match content_length {
                Some(n) => n as nat,
                None => 0,
            },
            !r.is_finished(),
    {
        let total = match content_length {
            Some(n) => n,
            None => 0,
        };
        ModelDownload { downloaded: 0, total, finished: false }
    }

    /// Whether the download is over.
    pub fn finished(&self) -> (r: bool)
        ensures
            r == self.is_finished(),
    {
        self.finished
    }

    /// Bytes written so far.
    pub fn downloaded_bytes(&self) -> (r: u64)
        ensures
            r == self.downloaded(),
    {
        self.downloaded
    }

    /// Takes in what happened and gives the report to send.
    pub fn step(&mut self, event: DownloadEvent) -> (r: DownloadReport)
        requires
            !old(self).is_finished(),
            event matches DownloadEvent::Written { len } ==> old(self).downloaded() + len
                <= u64::MAX,
        ensures
            final(self).total() == old(self).total(),
            r.finished == final(self).is_finished(),
            match event {
                DownloadEvent::Cancelled => {
                    &&& r.status == DownloadStatus::Cancelled
                    &&& r.progress == Progress::Nothing
                    &&& r.error is None
                    &&& r.remove_file
                    &&& r.finished
                    &&& final(self).downloaded() == old(self).downloaded()
                },
                DownloadEvent::Written { len } => {
                    &&& r.status == DownloadStatus::Downloading
                    &&& final(self).downloaded() == old(self).downloaded() + len
                    &&& r.progress == written_progress(
                        old(self).total(),
                        old(self).downloaded() + (len as nat),
                    )
                    &&& r.error is None
                    &&& !r.remove_file
                    &&& !r.finished
                },
                DownloadEvent::WriteFailed { message } => {
                    &&& r.status == DownloadStatus::Error
                    &&& r.progress == Progress::Nothing
                    &&& r.error == Some(message)
                    &&& !r.remove_file
                    &&& r.finished
                    &&& final(self).downloaded() == old(self).downloaded()
                },
                DownloadEvent::ReceiveFailed { message } => {
                    &&& r.status == DownloadStatus::Error
                    &&& r.progress == Progress::Nothing
                    &&& r.error == Some(message)
                    &&& r.remove_file
                    &&& r.finished
                    &&& final(self).downloaded() == old(self).downloaded()
                },
                DownloadEvent::Finished => {
                    &&& r.status == DownloadStatus::Completed
                    &&& r.progress == Progress::Whole
                    &&& r.error is None
                    &&& !r.remove_file
                    &&& r.finished
                    &&& final(self).downloaded() == old(self).downloaded()
                },
            },
    {
        match event {
            DownloadEvent::Cancelled => {
                self.finished = true;
                DownloadReport {
                    status: DownloadStatus::Cancelled,
                    progress: Progress::Nothing,
                    error: None,
                    remove_file: true,
                    finished: true,
                }
            },
            DownloadEvent::Written { len } => {
                self.downloaded = self.downloaded + len;
                let progress = if self.total > 0 {
                    Progress::Part { done: self.downloaded, total: self.total }
                } else {
                    Progress::Nothing
                };
                DownloadReport {
                    status: DownloadStatus::Downloading,
                    progress,
                    error: None,
                    remove_file: false,
                    finished: false,
                }
            },
            DownloadEvent::WriteFailed { message } => {
                self.finished = true;
                DownloadReport {
                    status: DownloadStatus::Error,
                    progress: Progress::Nothing,
                    error: Some(message),
                    remove_file: false,
                    finished: true,
                }
            },
            DownloadEvent::ReceiveFailed { message } => {
                self.finished = true;
                DownloadReport {
                    status: DownloadStatus::Error,
                    progress: Progress::Nothing,
                    error: Some(message),
                    remove_file: true,
                    finished: true,
                }
            },
            DownloadEvent::Finished => {
                self.finished = true;
                DownloadReport {
                    status: DownloadStatus::Completed,
                    progress: Progress::Whole,
                    error: None,
                    remove_file: false,
                    finished: true,
                }
            },
        }
    }
}

/// The sum of a sequence of piece lengths.
pub open spec fn total_len(pieces: Seq<u64>) -> nat
    decreases pieces.len(),
{
    if pieces.len() == 0 {
        0
    } else {
        total_len(pieces.drop_last()) + (pieces.last() as nat)
    }
}

/// The byte count of a download is the sum of the pieces written: after
/// one more piece it has grown by that piece's length.
pub proof fn law_downloaded_is_sum_of_pieces(pieces: Seq<u64>, piece: u64, before: nat, after: nat)
    requires
        before == total_len(pieces),
        after == before + piece,
    ensures
        after == total_len(pieces.push(piece)),
{
    assert(pieces.push(piece).drop_last() =~= pieces);
}

/// The map from names to handles that a list of entries describes.
pub open spec fn entries_map<T>(s: Seq<(String, T)>) -> Map<Seq<char>, T>
    decreases s.len(),
{
    if s.len() == 0 {
        Map::empty()
    } else {
        entries_map(s.drop_last()).insert(s.last().0@, s.last().1)
    }
}

/// No name occurs twice.
pub open spec fn names_unique<T>(s: Seq<(String, T)>) -> bool {
    forall|i: int, j: int| 0 <= i < j < s.len() ==> (#[trigger] s[i]).0@ != (#[trigger] s[j]).0@
}

proof fn lemma_entries_map_dom<T>(s: Seq<(String, T)>, k: Seq<char>)
    ensures
        entries_map(s).contains_key(k) <==> exists|j: int| 0 <= j < s.len() && (#[trigger] s[j]).0@ == k,
    decreases s.len(),
{
    if s.len() > 0 {
        let t = s.drop_last();
        lemma_entries_map_dom(t, k);
        if exists|j: int| 0 <= j < t.len() && (#[trigger] t[j]).0@ == k {
            let j = choose|j: int| 0 <= j < t.len() && (#[trigger] t[j]).0@ == k;
            assert(s[j] == t[j]);
        }
        if exists|j: int| 0 <= j < s.len() && (#[trigger] s[j]).0@ == k {
            let j = choose|j: int| 0 <= j < s.len() && (#[trigger] s[j]).0@ == k;
            if j < s.len() - 1 {
                assert(t[j] == s[j]);
            }
        }
    }
}

proof fn lemma_entries_map_value<T>(s: Seq<(String, T)>, j: int)
    requires
        names_unique(s),
        0 <= j < s.len(),
    ensures
        entries_map(s).contains_key(s[j].0@),
        entries_map(s)[s[j].0@] == s[j].1,
    decreases s.len(),
{
    let t = s.drop_last();
    if j < s.len() - 1 {
        assert(t[j] == s[j]);
        lemma_entries_map_value(t, j);
        assert(s[j].0@ != s[s.len() - 1].0@);
    }
}

proof fn lemma_entries_map_remove<T>(s: Seq<(String, T)>, i: int)
    requires
        names_unique(s),
        0 <= i < s.len(),
    ensures
        entries_map(s.remove(i)) =~= entries_map(s).remove(s[i].0@),
        names_unique(s.remove(i)),
    decreases s.len(),
{
    let t = s.drop_last();
    let last = s.last();
    if i == s.len() - 1 {
        assert(s.remove(i) =~= t);
        lemma_entries_map_dom(t, last.0@);
        if entries_map(t).contains_key(last.0@) {
            let j = choose|j: int| 0 <= j < t.len() && (#[trigger] t[j]).0@ == last.0@;
            assert(s[j] == t[j]);
        }
    } else {
        assert(names_unique(t)) by {
            assert forall|a: int, b: int| 0 <= a < b < t.len() implies (#[trigger] t[a]).0@
                != (#[trigger] t[b]).0@ by {
                assert(t[a] == s[a] && t[b] == s[b]);
            }
        }
        assert(t[i] == s[i]);
        lemma_entries_map_remove(t, i);
        assert(s.remove(i) =~= t.remove(i).push(last));
        assert(s.remove(i).drop_last() =~= t.remove(i));
        assert(s[i].0@ != last.0@);
    }
    let r = s.remove(i);
    assert forall|a: int, b: int| 0 <= a < b < r.len() implies (#[trigger] r[a]).0@ != (
    #[trigger] r[b]).0@ by {
        let a0 = if a < i { a } else { a + 1 };
        let b0 = if b < i { b } else { b + 1 };
        assert(r[a] == s[a0] && r[b] == s[b0]);
    }
}

/// The downloads that can still be cancelled, each under its model name,
/// with the handle that cancels it.
pub struct ActiveDownloads<T> {
    entries: Vec<(String, T)>,
}

impl<T> ActiveDownloads<T> {
    /// The handles by model name.
    pub closed spec fn view(&self) -> Map<Seq<char>, T> {
        entries_map(self.entries@)
    }

    /// The register's invariant: no name is held twice.
    #[verifier::type_invariant]
    closed spec fn wf(&self) -> bool {
        names_unique(self.entries@)
    }

    /// An empty register.
    pub fn new() -> (r: Self)
        ensures
            r@ == Map::<Seq<char>, T>::empty(),
    {
        ActiveDownloads { entries: Vec::new() }
    }

    fn position(entries: &Vec<(String, T)>, name: &str) -> (r: Option<usize>)
        ensures
            match r {
                Some(i) => i < entries@.len() && entries@[i as int].0@ == name@,
                None => forall|j: int| 0 <= j < entries@.len() ==> (#[trigger] entries@[j]).0@ != name@,
            },
    {
        let mut i: usize = 0;
        while i < entries.len()
            invariant
                i <= entries@.len(),
                forall|j: int| 0 <= j < i ==> (#[trigger] entries@[j]).0@ != name@,
            decreases entries.len() - i,
        {
            if str_eq(entries[i].0.as_str(), name) {
                return Some(i);
            }
            i = i + 1;
        }
        None
    }

    /// Registers `handle` under `name`; gives back the handle that was
    /// registered under that name before, as `HashMap::insert` does.
    pub fn insert(&mut self, name: String, handle: T) -> (r: Option<T>)
        ensures
            final(self)@ == old(self)@.insert(name@, handle),
            r == (if old(self)@.contains_key(name@) {
                Some(old(self)@[name@])
            } else {
                None
            }),
    {
        proof {
            use_type_invariant(&*self);
        }
        let mut entries: Vec<(String, T)> = Vec::new();
        std::mem::swap(&mut entries, &mut self.entries);
        let ghost key = name@;
        let ghost start = entries@;
        proof {
            lemma_entries_map_dom(entries@, key);
        }
        let previous = match Self::position(&entries, name.as_str()) {
            Some(i) => {
                proof {
                    lemma_entries_map_value(entries@, i as int);
                    lemma_entries_map_remove(entries@, i as int);
                }
                let (_, old_handle) = entries.remove(i);
                Some(old_handle)
            },
            None => None,
        };
        let ghost mid = entries@;
        proof {
            lemma_entries_map_dom(mid, key);
            if previous is None {
                assert(entries_map(mid) =~= entries_map(start).remove(key));
            }
        }
        entries.push((name, handle));
        proof {
            assert(entries@.drop_last() =~= mid);
            let s = entries@;
            assert forall|a: int, b: int| 0 <= a < b < s.len() implies (#[trigger] s[a]).0@
                != (#[trigger] s[b]).0@ by {
                if b == s.len() - 1 {
                    assert(s[a] == mid[a]);
                    if mid[a].0@ == key {
                        assert(entries_map(mid).contains_key(key));
                    }
                } else {
                    assert(s[a] == mid[a] && s[b] == mid[b]);
                }
            }
            assert(entries_map(mid) =~= entries_map(entries@.drop_last()));
            assert(entries_map(entries@) =~= entries_map(start).insert(key, handle));
        }
        self.entries = entries;
        previous
    }

    /// Takes the handle registered under `name` out of the register.
    pub fn remove(&mut self, name: &str) -> (r: Option<T>)
        ensures
            final(self)@ == old(self)@.remove(name@),
            r == (if old(self)@.contains_key(name@) {
                Some(old(self)@[name@])
            } else {
                None
            }),
    {
        proof {
            use_type_invariant(&*self);
        }
        let mut entries: Vec<(String, T)> = Vec::new();
        std::mem::swap(&mut entries, &mut self.entries);
        let ghost start = entries@;
        proof {
            lemma_entries_map_dom(entries@, name@);
        }
        let taken = match Self::position(&entries, name) {
            Some(i) => {
                proof {
                    lemma_entries_map_value(entries@, i as int);
                    lemma_entries_map_remove(entries@, i as int);
                }
                let (_, handle) = entries.remove(i);
                Some(handle)
            },
            None => {
                assert(entries_map(start).remove(name@) =~= entries_map(start));
                None
            },
        };
        self.entries = entries;
        taken
    }
}

/// Registering a download and then cancelling it: the cancel finds the
/// handle just registered, and leaves the register as it was without that
/// model.
pub proof fn law_cancel_finds_registered_handle<T>(
    before: Map<Seq<char>, T>,
    name: Seq<char>,
    handle: T,
    registered: Map<Seq<char>, T>,
    taken: Option<T>,
    after: Map<Seq<char>, T>,
)
    requires
        registered == before.insert(name, handle),
        taken == (if registered.contains_key(name) {
            Some(registered[name])
        } else {
            None
        }),
        after == registered.remove(name),
    ensures
        taken == Some(handle),
        after == before.remove(name),
{
    assert(after =~= before.remove(name));
}

} // verus!
