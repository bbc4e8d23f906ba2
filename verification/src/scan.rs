//! Change detection: a walk over a root path and everything below it that
//! collects the paths modified after a baseline.
//!
//! The scanner reads nothing itself.  It asks for the metadata of a path or
//! for the listing of a directory, one request at a time, and is told what
//! was found.  The root is looked at first; a directory is entered once its
//! listing could be read, and its entries are taken in the order of the
//! listing, each sub-directory being walked in full before the entry behind
//! it.  Whatever cannot be read is skipped and never counts as changed; the
//! scanner says so in a warning, for the entries of a directory when their
//! listing arrives.

use vstd::prelude::*;
use crate::instant::{has_changed, newer, Timestamp};
use crate::report::{only_if, say, say_if, Line, LineModel};
use crate::text::push_text;

verus! {

/// What the metadata of a path says.
#[derive(Clone, Copy, Debug, PartialEq, Eq)]
pub struct FileStat {
    /// Whether the path is a plain file.
    pub is_file: bool,
    /// When the path was last modified, where that is known.
    pub modified: Option<Timestamp>,
}

/// One entry of a directory listing.
#[derive(Debug, PartialEq, Eq)]
pub enum Probe {
    /// The entry itself could not be read.
    Unreadable,
    /// The metadata of the entry could not be read; `reason` is the
    /// system's description of the failure.
    NoMetadata { path: String, reason: String },
    /// Anything but a directory.
    Leaf { path: String, modified: Option<Timestamp> },
    /// A directory.
    Dir { path: String },
}

/// The mathematical content of a [`Probe`].
pub enum ProbeModel {
    Unreadable,
    NoMetadata { path: Seq<char>, reason: Seq<char> },
    Leaf { path: Seq<char>, modified: Option<Timestamp> },
    Dir { path: Seq<char> },
}

impl DeepView for Probe {
    type V = ProbeModel;

    open spec fn deep_view(&self) -> ProbeModel {
        match *self {
            Probe::Unreadable => ProbeModel::Unreadable,
            Probe::NoMetadata { path, reason } => ProbeModel::NoMetadata {
                path: path@,
                reason: reason@,
            },
            Probe::Leaf { path, modified } => ProbeModel::Leaf { path: path@, modified },
            Probe::Dir { path } => ProbeModel::Dir { path: path@ },
        }
    }
}

/// What the scanner asks for.
#[derive(Debug, PartialEq, Eq)]
pub enum ScanRequest {
    /// The metadata of this path, following symbolic links.
    Stat(String),
    /// The entries of this directory.
    List(String),
}

/// The mathematical content of a [`ScanRequest`].
pub enum ScanRequestModel {
    Stat(Seq<char>),
    List(Seq<char>),
}

impl DeepView for ScanRequest {
    type V = ScanRequestModel;

    open spec fn deep_view(&self) -> ScanRequestModel {
        match *self {
            ScanRequest::Stat(path) => ScanRequestModel::Stat(path@),
            ScanRequest::List(path) => ScanRequestModel::List(path@),
        }
    }
}

/// What came of a request.  An error is the system's description of the
/// failure.
#[derive(Debug, PartialEq, Eq)]
pub enum ScanReply {
    /// The metadata, or why it could not be read.
    Stat(Result<FileStat, String>),
    /// The entries, or why the directory could not be read.
    Listed(Result<Vec<Probe>, String>),
}

/// The mathematical content of a [`ScanReply`].
pub enum ScanReplyModel {
    Stat(Result<FileStat, Seq<char>>),
    Listed(Result<Seq<ProbeModel>, Seq<char>>),
}

impl DeepView for ScanReply {
    type V = ScanReplyModel;

    open spec fn deep_view(&self) -> ScanReplyModel {
        match *self {
            ScanReply::Stat(Ok(stat)) => ScanReplyModel::Stat(Ok(stat)),
            ScanReply::Stat(Err(reason)) => ScanReplyModel::Stat(Err(reason@)),
            ScanReply::Listed(Ok(entries)) => ScanReplyModel::Listed(Ok(entries.deep_view())),
            ScanReply::Listed(Err(reason)) => ScanReplyModel::Listed(Err(reason@)),
        }
    }
}

/// A directory that is being walked: its entries, and how many of them have
/// been dealt with.
pub struct FrameModel {
    pub entries: Seq<ProbeModel>,
    pub next: nat,
}

/// What the scanner waits to hear of.
pub enum AwaitingModel {
    Nothing,
    /// The metadata of this path.
    Stat(Seq<char>),
    /// The listing of this directory; the flag says whether the directory
    /// itself was modified after the baseline.
    List(Seq<char>, bool),
}

/// The state of a scan.
pub struct ScannerModel {
    /// The baseline.
    pub since: Timestamp,
    /// The directories that are being walked, outermost first.
    pub frames: Seq<FrameModel>,
    pub awaiting: AwaitingModel,
    /// The paths found changed, in the order in which they were met.
    pub changed: Seq<Seq<char>>,
}

/// The path, where it was modified after the baseline, else nothing.
pub open spec fn marked(path: Seq<char>, changed: bool) -> Seq<Seq<char>> {
    if changed {
        seq![path]
    } else {
        Seq::empty()
    }
}

/// The warning that an entry of a listing gives rise to: one for metadata
/// that could not be read, one for a modification time that is not known.
pub open spec fn probe_warning(probe: ProbeModel) -> Seq<LineModel> {
    match probe {
        ProbeModel::NoMetadata { path, reason } => seq![LineModel::NoMetadata { path, reason }],
        ProbeModel::Leaf { path, modified } => only_if(
            modified is None,
            LineModel::NoModificationDate,
        ),
        _ => Seq::empty(),
    }
}

/// The warnings that a listing gives rise to, in the order of its entries.
pub open spec fn probe_warnings(entries: Seq<ProbeModel>) -> Seq<LineModel>
    decreases entries.len(),
{
    if entries.len() == 0 {
        Seq::empty()
    } else {
        probe_warnings(entries.drop_last()) + probe_warning(entries.last())
    }
}

/// Where a walk through the entries of one directory stops.
pub struct FrameScan {
    /// How many entries have been dealt with.
    pub next: nat,
    /// The changed paths so far.
    pub changed: Seq<Seq<char>>,
    /// The sub-directory that is to be entered, or `None` at the end of the
    /// listing.
    pub dir: Option<Seq<char>>,
}

/// Walks the entries from `next` on.  Unreadable entries are skipped, an
/// entry that is no directory is recorded where it is newer than `since`,
/// and the walk stops behind the first directory.
pub open spec fn scan_frame(
    entries: Seq<ProbeModel>,
    next: nat,
    changed: Seq<Seq<char>>,
    since: Timestamp,
) -> FrameScan
    decreases entries.len() - next,
{
    if next >= entries.len() {
        FrameScan { next, changed, dir: None }
    } else {
        match entries[next as int] {
            ProbeModel::Unreadable | ProbeModel::NoMetadata { .. } => scan_frame(
                entries,
                next + 1,
                changed,
                since,
            ),
            ProbeModel::Leaf { path, modified } => scan_frame(
                entries,
                next + 1,
                changed + marked(path, newer(modified, since)),
                since,
            ),
            ProbeModel::Dir { path } => FrameScan { next: next + 1, changed, dir: Some(path) },
        }
    }
}

impl ScannerModel {
    /// A scan that has not been given a root yet.
    pub open spec fn initial(since: Timestamp) -> ScannerModel {
        ScannerModel {
            since,
            frames: Seq::empty(),
            awaiting: AwaitingModel::Nothing,
            changed: Seq::empty(),
        }
    }

    /// Every state that the scanner can be in satisfies this: a directory
    /// is open only while something inside it is being read.
    pub open spec fn wf(self) -> bool {
        self.awaiting is Nothing ==> self.frames.len() == 0
    }

    /// What the scanner asks for next; `None` when the walk is over.
    pub open spec fn request(self) -> Option<ScanRequestModel> {
        match self.awaiting {
            AwaitingModel::Nothing => None,
            AwaitingModel::Stat(path) => Some(ScanRequestModel::Stat(path)),
            AwaitingModel::List(path, _) => Some(ScanRequestModel::List(path)),
        }
    }

    /// Whether the scanner is at rest: no request, no directory open.
    pub open spec fn is_idle(self) -> bool {
        self.awaiting is Nothing && self.frames.len() == 0
    }

    /// Goes on with the innermost open directory until a sub-directory has
    /// to be looked at or every directory is closed.
    pub open spec fn settle(self) -> ScannerModel
        decreases self.frames.len(),
    {
        if !(self.awaiting is Nothing) || self.frames.len() == 0 {
            self
        } else {
            let top = self.frames.last();
            let walk = scan_frame(top.entries, top.next, self.changed, self.since);
            match walk.dir {
                Some(path) => ScannerModel {
                    since: self.since,
                    frames: self.frames.drop_last().push(
                        FrameModel { entries: top.entries, next: walk.next },
                    ),
                    awaiting: AwaitingModel::Stat(path),
                    changed: walk.changed,
                },
                None => ScannerModel {
                    since: self.since,
                    frames: self.frames.drop_last(),
                    awaiting: AwaitingModel::Nothing,
                    changed: walk.changed,
                }.settle(),
            }
        }
    }

    /// Begins the walk of `root`.  A scanner that is not at rest ignores
    /// this.
    pub open spec fn visit(self, root: Seq<char>) -> ScannerModel {
        if self.is_idle() {
            ScannerModel { awaiting: AwaitingModel::Stat(root), ..self }
        } else {
            self
        }
    }

    /// The warnings that the answer to the request gives rise to.  What
    /// could not be read is told with the reason; so is a modification time
    /// that is not known, of the path itself or of an entry of the listing
    /// that is no directory.  The answer to another request gives none.
    pub open spec fn warnings(self, answer: ScanReplyModel) -> Seq<LineModel> {
        match (self.awaiting, answer) {
            (AwaitingModel::Stat(path), ScanReplyModel::Stat(Err(reason))) => seq![
                LineModel::NoMetadata { path, reason },
            ],
            (AwaitingModel::Stat(path), ScanReplyModel::Stat(Ok(stat))) => only_if(
                stat.modified is None,
                LineModel::NoModificationDate,
            ),
            (AwaitingModel::List(path, changed), ScanReplyModel::Listed(Err(reason))) => seq![
                LineModel::NoListing(reason),
            ],
            (
                AwaitingModel::List(path, changed),
                ScanReplyModel::Listed(Ok(entries)),
            ) => probe_warnings(entries),
            _ => Seq::empty(),
        }
    }

    /// Takes the answer to the request.  The answer to another request
    /// changes nothing.
    pub open spec fn reply(self, answer: ScanReplyModel) -> ScannerModel {
        match (self.awaiting, answer) {
            (AwaitingModel::Stat(path), ScanReplyModel::Stat(Err(reason))) => ScannerModel {
                awaiting: AwaitingModel::Nothing,
                ..self
            }.settle(),
            (AwaitingModel::Stat(path), ScanReplyModel::Stat(Ok(stat))) => {
                let changed = newer(stat.modified, self.since);
                if stat.is_file {
                    ScannerModel {
                        awaiting: AwaitingModel::Nothing,
                        changed: self.changed + marked(path, changed),
                        ..self
                    }.settle()
                } else {
                    ScannerModel { awaiting: AwaitingModel::List(path, changed), ..self }
                }
            },
            (
                AwaitingModel::List(path, changed),
                ScanReplyModel::Listed(Err(reason)),
            ) => ScannerModel { awaiting: AwaitingModel::Nothing, ..self }.settle(),
            (
                AwaitingModel::List(path, changed),
                ScanReplyModel::Listed(Ok(entries)),
            ) => ScannerModel {
                since: self.since,
                frames: self.frames.push(FrameModel { entries, next: 0 }),
                awaiting: AwaitingModel::Nothing,
                changed: self.changed + marked(path, changed),
            }.settle(),
            _ => self,
        }
    }
}

#[derive(Debug)]
struct Frame {
    entries: Vec<Probe>,
    next: usize,
}

#[derive(Debug)]
enum Awaiting {
    Nothing,
    Stat(String),
    List(String, bool),
}

/// A scan in progress.
#[derive(Debug)]
pub struct Scanner {
    since: Timestamp,
    frames: Vec<Frame>,
    awaiting: Awaiting,
    changed: Vec<String>,
}

spec fn frame_model(frame: Frame) -> FrameModel {
    FrameModel { entries: frame.entries.deep_view(), next: frame.next as nat }
}

spec fn frames_model(frames: Seq<Frame>) -> Seq<FrameModel> {
    Seq::new(frames.len(), |i: int| frame_model(frames[i]))
}

spec fn awaiting_model(awaiting: Awaiting) -> AwaitingModel {
    match awaiting {
        Awaiting::Nothing => AwaitingModel::Nothing,
        Awaiting::Stat(path) => AwaitingModel::Stat(path@),
        Awaiting::List(path, changed) => AwaitingModel::List(path@, changed),
    }
}

impl View for Scanner {
    type V = ScannerModel;

    closed spec fn view(&self) -> ScannerModel {
        ScannerModel {
            since: self.since,
            frames: frames_model(self.frames@),
            awaiting: awaiting_model(self.awaiting),
            changed: self.changed.deep_view(),
        }
    }
}

/// Appends `path` to `changed` where `hit` holds.
fn mark(changed: &mut Vec<String>, path: &String, hit: bool)
    ensures
        final(changed).deep_view() == old(changed).deep_view() + marked(path@, hit),
{
    if hit {
        push_text(changed, path);
    }
    assert(changed.deep_view() =~= old(changed).deep_view() + marked(path@, hit));
}

impl Scanner {
    #[verifier::type_invariant]
    spec fn inv(&self) -> bool {
        self@.wf()
    }

    /// A scanner at rest, with nothing found yet.
    pub fn new(since: Timestamp) -> (s: Scanner)
        ensures
            s@ == ScannerModel::initial(since),
            s@.wf(),
    {
        let s = Scanner {
            since,
            frames: Vec::new(),
            awaiting: Awaiting::Nothing,
            changed: Vec::new(),
        };
        assert(s@.frames =~= Seq::empty());
        assert(s@.changed =~= Seq::empty());
        s
    }

    /// The baseline of the scan.
    pub fn since(&self) -> (since: Timestamp)
        ensures
            since == self@.since,
    {
        self.since
    }

    /// Whether the scanner has no request and no directory open.
    pub fn is_idle(&self) -> (idle: bool)
        ensures
            idle == self@.is_idle(),
            idle == (self@.request() is None),
            self@.wf(),
    {
        proof {
            use_type_invariant(self);
        }
        match self.awaiting {
            Awaiting::Nothing => self.frames.len() == 0,
            _ => false,
        }
    }

    /// What to read next; `None` when the walk is over.
    pub fn request(&self) -> (request: Option<ScanRequest>)
        ensures
            request.deep_view() == self@.request(),
    {
        match &self.awaiting {
            Awaiting::Nothing => None,
            Awaiting::Stat(path) => Some(ScanRequest::Stat(path.clone())),
            Awaiting::List(path, _) => Some(ScanRequest::List(path.clone())),
        }
    }

    /// The paths found changed so far.
    pub fn changed(&self) -> (changed: &Vec<String>)
        ensures
            changed.deep_view() == self@.changed,
    {
        &self.changed
    }

    /// Ends the scan and hands out what it found.
    pub fn into_changed(self) -> (changed: Vec<String>)
        ensures
            changed.deep_view() == self@.changed,
    {
        self.changed
    }

    /// Begins the walk of `root`; the paths found are added to those found
    /// before.  Ignored unless the scanner is at rest.
    pub fn visit(self, root: String) -> (s: Scanner)
        ensures
            s@ == self@.visit(root@),
            s@.wf(),
    {
        proof {
            use_type_invariant(&self);
        }
        if self.is_idle() {
            Scanner {
                since: self.since,
                frames: self.frames,
                awaiting: Awaiting::Stat(root),
                changed: self.changed,
            }
        } else {
            self
        }
    }

    fn settle(since: Timestamp, open: Vec<Frame>, found: Vec<String>) -> (s: Scanner)
        ensures
            s@ == (ScannerModel {
                since,
                frames: frames_model(open@),
                awaiting: AwaitingModel::Nothing,
                changed: found.deep_view(),
            }).settle(),
            s@.wf(),
    {
        let ghost goal = (ScannerModel {
            since,
            frames: frames_model(open@),
            awaiting: AwaitingModel::Nothing,
            changed: found.deep_view(),
        }).settle();
        let mut frames = open;
        let mut changed = found;
        loop
            invariant
                goal == (ScannerModel {
                    since,
                    frames: frames_model(open@),
                    awaiting: AwaitingModel::Nothing,
                    changed: found.deep_view(),
                }).settle(),
                goal == (ScannerModel {
                    since,
                    frames: frames_model(frames@),
                    awaiting: AwaitingModel::Nothing,
                    changed: changed.deep_view(),
                }).settle(),
            decreases frames.len(),
        {
            let ghost before = ScannerModel {
                since,
                frames: frames_model(frames@),
                awaiting: AwaitingModel::Nothing,
                changed: changed.deep_view(),
            };
            let top = match frames.pop() {
                Some(top) => top,
                None => {
                    return Scanner { since, frames, awaiting: Awaiting::Nothing, changed };
                },
            };
            assert(frames_model(frames@) =~= before.frames.drop_last());
            assert(before.frames.last() == frame_model(top));
            let Frame { entries, next } = top;
            let mut i: usize = next;
            let mut dir: Option<String> = None;
            while i < entries.len() && dir.is_none()
                invariant
                    match dir {
                        Some(path) => scan_frame(
                            entries.deep_view(),
                            next as nat,
                            before.changed,
                            since,
                        ) == (FrameScan {
                            next: i as nat,
                            changed: changed.deep_view(),
                            dir: Some(path@),
                        }),
                        None => scan_frame(
                            entries.deep_view(),
                            next as nat,
                            before.changed,
                            since,
                        ) == scan_frame(entries.deep_view(), i as nat, changed.deep_view(), since),
                    },
                decreases entries.len() - i + (if dir is None { 1int } else { 0int }),
            {
                match &entries[i] {
                    Probe::Unreadable => {},
                    Probe::NoMetadata { .. } => {},
                    Probe::Leaf { path, modified } => {
                        mark(&mut changed, path, has_changed(since, *modified));
                    },
                    Probe::Dir { path } => {
                        dir = Some(path.clone());
                    },
                }
                i += 1;
            }
            match dir {
                Some(path) => {
                    frames.push(Frame { entries, next: i });
                    let s = Scanner { since, frames, awaiting: Awaiting::Stat(path), changed };
                    assert(s@.frames =~= before.frames.drop_last().push(
                        FrameModel { entries: entries.deep_view(), next: i as nat },
                    ));
                    return s;
                },
                None => {},
            }
        }
    }

    /// Takes the answer to the request that [`Scanner::request`] names, and
    /// returns the warnings that it gives rise to.
    pub fn reply(self, answer: ScanReply) -> (r: (Scanner, Vec<Line>))
        ensures
            r.0@ == self@.reply(answer.deep_view()),
            r.1.deep_view() == self@.warnings(answer.deep_view()),
            r.0@.wf(),
    {
        proof {
            use_type_invariant(&self);
        }
        let Scanner { since, frames, awaiting, changed } = self;
        let mut frames = frames;
        let mut changed = changed;
        let mut lines: Vec<Line> = Vec::new();
        assert(lines.deep_view() =~= Seq::<LineModel>::empty());
        match (awaiting, answer) {
            (Awaiting::Stat(path), ScanReply::Stat(Err(reason))) => {
                say(&mut lines, Line::NoMetadata { path, reason });
                assert(lines.deep_view() =~= seq![
                    LineModel::NoMetadata { path: path@, reason: reason@ },
                ]);
                (Scanner::settle(since, frames, changed), lines)
            },
            (Awaiting::Stat(path), ScanReply::Stat(Ok(stat))) => {
                say_if(&mut lines, stat.modified.is_none(), Line::NoModificationDate);
                assert(lines.deep_view() =~= only_if(
                    stat.modified is None,
                    LineModel::NoModificationDate,
                ));
                let hit = has_changed(since, stat.modified);
                if stat.is_file {
                    mark(&mut changed, &path, hit);
                    (Scanner::settle(since, frames, changed), lines)
                } else {
                    (Scanner { since, frames, awaiting: Awaiting::List(path, hit), changed }, lines)
                }
            },
            (Awaiting::List(path, hit), ScanReply::Listed(Err(reason))) => {
                say(&mut lines, Line::NoListing(reason));
                assert(lines.deep_view() =~= seq![LineModel::NoListing(reason@)]);
                (Scanner::settle(since, frames, changed), lines)
            },
            (Awaiting::List(path, hit), ScanReply::Listed(Ok(entries))) => {
                let lines = warnings_of(&entries);
                mark(&mut changed, &path, hit);
                let ghost open = frames_model(frames@);
                frames.push(Frame { entries, next: 0 });
                assert(frames_model(frames@) =~= open.push(
                    FrameModel { entries: entries.deep_view(), next: 0 },
                ));
                (Scanner::settle(since, frames, changed), lines)
            },
            (awaiting, _) => (Scanner { since, frames, awaiting, changed }, lines),
        }
    }
}

/// The warnings that a listing gives rise to.
pub fn warnings_of(entries: &Vec<Probe>) -> (lines: Vec<Line>)
    ensures
        lines.deep_view() == probe_warnings(entries.deep_view()),
{
    let mut lines: Vec<Line> = Vec::new();
    assert(lines.deep_view() =~= Seq::<LineModel>::empty());
    let mut i: usize = 0;
    while i < entries.len()
        invariant
            i <= entries.len(),
            lines.deep_view() == probe_warnings(entries.deep_view().take(i as int)),
        decreases entries.len() - i,
    {
        let ghost upto = entries.deep_view().take(i as int + 1);
        assert(upto.drop_last() =~= entries.deep_view().take(i as int));
        assert(upto.last() == entries[i as int].deep_view());
        match &entries[i] {
            Probe::NoMetadata { path, reason } => {
                say(&mut lines, Line::NoMetadata { path: path.clone(), reason: reason.clone() });
                assert(lines.deep_view() =~= probe_warnings(upto));
            },
            Probe::Leaf { path, modified } => {
                say_if(&mut lines, modified.is_none(), Line::NoModificationDate);
            },
            _ => {
                assert(lines.deep_view() =~= probe_warnings(upto));
            },
        }
        i += 1;
    }
    assert(entries.deep_view().take(entries.len() as int) =~= entries.deep_view());
    lines
}

/// A walk comes to rest only with every directory closed.
pub proof fn lemma_settle_rests(m: ScannerModel)
    requires
        m.awaiting is Nothing,
    ensures
        m.settle().wf(),
        m.settle().since == m.since,
    decreases m.frames.len(),
{
    if m.frames.len() > 0 {
        let top = m.frames.last();
        let walk = scan_frame(top.entries, top.next, m.changed, m.since);
        if walk.dir is None {
            lemma_settle_rests(
                ScannerModel {
                    since: m.since,
                    frames: m.frames.drop_last(),
                    awaiting: AwaitingModel::Nothing,
                    changed: walk.changed,
                },
            );
        }
    }
}

/// Whatever the scanner is asked and told, its state stays well formed and
/// its baseline stays the same.
pub proof fn lemma_scanner_stays_well_formed(m: ScannerModel, root: Seq<char>, answer: ScanReplyModel)
    requires
        m.wf(),
    ensures
        ScannerModel::initial(m.since).wf(),
        m.visit(root).wf(),
        m.visit(root).since == m.since,
        m.reply(answer).wf(),
        m.reply(answer).since == m.since,
{
    match (m.awaiting, answer) {
        (AwaitingModel::Stat(path), ScanReplyModel::Stat(Err(reason))) => {
            lemma_settle_rests(ScannerModel { awaiting: AwaitingModel::Nothing, ..m });
        },
        (AwaitingModel::Stat(path), ScanReplyModel::Stat(Ok(stat))) => {
            if stat.is_file {
                lemma_settle_rests(
                    ScannerModel {
                        awaiting: AwaitingModel::Nothing,
                        changed: m.changed + marked(path, newer(stat.modified, m.since)),
                        ..m
                    },
                );
            }
        },
        (AwaitingModel::List(path, changed), ScanReplyModel::Listed(Err(reason))) => {
            lemma_settle_rests(ScannerModel { awaiting: AwaitingModel::Nothing, ..m });
        },
        (AwaitingModel::List(path, changed), ScanReplyModel::Listed(Ok(entries))) => {
            lemma_settle_rests(
                ScannerModel {
                    since: m.since,
                    frames: m.frames.push(FrameModel { entries, next: 0 }),
                    awaiting: AwaitingModel::Nothing,
                    changed: m.changed + marked(path, changed),
                },
            );
        },
        _ => {},
    }
}

proof fn lemma_prefix_of_longer(a: Seq<Seq<char>>, b: Seq<Seq<char>>, c: Seq<Seq<char>>)
    requires
        a.is_prefix_of(b),
        b.is_prefix_of(c),
    ensures
        a.is_prefix_of(c),
        a.is_prefix_of(a + b),
        a.is_prefix_of(a),
{
    assert(a =~= c.subrange(0, a.len() as int));
    assert(a =~= (a + b).subrange(0, a.len() as int));
    assert(a =~= a.subrange(0, a.len() as int));
}

/// A walk through a listing only adds to what was found.
pub proof fn lemma_scan_frame_keeps_found(
    entries: Seq<ProbeModel>,
    next: nat,
    changed: Seq<Seq<char>>,
    since: Timestamp,
)
    ensures
        changed.is_prefix_of(scan_frame(entries, next, changed, since).changed),
    decreases entries.len() - next,
{
    lemma_prefix_of_longer(changed, changed, changed);
    if next < entries.len() {
        match entries[next as int] {
            ProbeModel::Unreadable | ProbeModel::NoMetadata { .. } => {
                lemma_scan_frame_keeps_found(entries, next + 1, changed, since);
            },
            ProbeModel::Leaf { path, modified } => {
                let more = changed + marked(path, newer(modified, since));
                lemma_scan_frame_keeps_found(entries, next + 1, more, since);
                assert(changed.is_prefix_of(more)) by {
                    assert(changed =~= more.subrange(0, changed.len() as int));
                }
                lemma_prefix_of_longer(
                    changed,
                    more,
                    scan_frame(entries, next + 1, more, since).changed,
                );
            },
            ProbeModel::Dir { path } => {},
        }
    }
}

/// Going on with the open directories only adds to what was found.
pub proof fn lemma_settle_keeps_found(m: ScannerModel)
    ensures
        m.changed.is_prefix_of(m.settle().changed),
    decreases m.frames.len(),
{
    lemma_prefix_of_longer(m.changed, m.changed, m.changed);
    if m.awaiting is Nothing && m.frames.len() > 0 {
        let top = m.frames.last();
        let walk = scan_frame(top.entries, top.next, m.changed, m.since);
        lemma_scan_frame_keeps_found(top.entries, top.next, m.changed, m.since);
        if walk.dir is None {
            let rest = ScannerModel {
                since: m.since,
                frames: m.frames.drop_last(),
                awaiting: AwaitingModel::Nothing,
                changed: walk.changed,
            };
            lemma_settle_keeps_found(rest);
            lemma_prefix_of_longer(m.changed, walk.changed, rest.settle().changed);
        }
    }
}

/// What the scanner has found stays found, in its place: a new root leaves
/// it as it is, and an answer can only add paths behind it.
pub proof fn lemma_found_is_kept(m: ScannerModel, root: Seq<char>, answer: ScanReplyModel)
    ensures
        m.visit(root).changed == m.changed,
        m.changed.is_prefix_of(m.reply(answer).changed),
{
    lemma_prefix_of_longer(m.changed, m.changed, m.changed);
    match (m.awaiting, answer) {
        (AwaitingModel::Stat(path), ScanReplyModel::Stat(Err(reason))) => {
            lemma_settle_keeps_found(ScannerModel { awaiting: AwaitingModel::Nothing, ..m });
        },
        (AwaitingModel::Stat(path), ScanReplyModel::Stat(Ok(stat))) => {
            if stat.is_file {
                let more = m.changed + marked(path, newer(stat.modified, m.since));
                let then = ScannerModel { awaiting: AwaitingModel::Nothing, changed: more, ..m };
                lemma_settle_keeps_found(then);
                assert(m.changed.is_prefix_of(more)) by {
                    assert(m.changed =~= more.subrange(0, m.changed.len() as int));
                }
                lemma_prefix_of_longer(m.changed, more, then.settle().changed);
            }
        },
        (AwaitingModel::List(path, changed), ScanReplyModel::Listed(Err(reason))) => {
            lemma_settle_keeps_found(ScannerModel { awaiting: AwaitingModel::Nothing, ..m });
        },
        (AwaitingModel::List(path, changed), ScanReplyModel::Listed(Ok(entries))) => {
            let more = m.changed + marked(path, changed);
            let then = ScannerModel {
                since: m.since,
                frames: m.frames.push(FrameModel { entries, next: 0 }),
                awaiting: AwaitingModel::Nothing,
                changed: more,
            };
            lemma_settle_keeps_found(then);
            assert(m.changed.is_prefix_of(more)) by {
                assert(m.changed =~= more.subrange(0, m.changed.len() as int));
            }
            lemma_prefix_of_longer(m.changed, more, then.settle().changed);
        },
        _ => {},
    }
}

} // verus!
