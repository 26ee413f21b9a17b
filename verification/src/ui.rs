//! The decisions of the user interface: the total size of an upload, which
//! row a transfer report is about, how transfer reports are followed, which
//! page starts the device finder, and which keys paths are accepted.
use vstd::prelude::*;
use crate::text::str_eq;
use crate::usb::protocol::UsbOperation;

verus! {

/// The sum of the sizes.
pub open spec fn sum_sizes(s: Seq<i64>) -> int
    decreases s.len(),
{
    if s.len() == 0 {
        0
    } else {
        sum_sizes(s.drop_last()) + s.last()
    }
}

/// Whether adding the sizes in order never leaves the range of `i64`.
pub open spec fn sizes_sum_fits(s: Seq<i64>) -> bool {
    forall|i: int| 0 <= i <= s.len() ==> i64::MIN <= #[trigger] sum_sizes(s.take(i)) <= i64::MAX
}

/// The total size of the ROMs of an upload.
pub fn total_size(sizes: &Vec<i64>) -> (r: i64)
    requires
        sizes_sum_fits(sizes@),
    ensures
        r == sum_sizes(sizes@),
{
    let mut total: i64 = 0;
    let mut i: usize = 0;
    assert(sizes@.take(0) =~= Seq::<i64>::empty());
    while i < sizes.len()
        invariant
            i <= sizes@.len(),
            sizes_sum_fits(sizes@),
            total == sum_sizes(sizes@.take(i as int)),
        decreases sizes.len() - i,
    {
        assert(sizes@.take(i + 1).drop_last() == sizes@.take(i as int));
        assert(sizes@.take(i + 1).last() == sizes@[i as int]);
        assert(i64::MIN <= sum_sizes(sizes@.take(i + 1)) <= i64::MAX);
        total = total + sizes[i];
        i = i + 1;
    }
    assert(sizes@.take(sizes@.len() as int) == sizes@);
    total
}

/// Whether the sizes of an upload can be added up in order without leaving
/// the range of `i64`.
pub fn sizes_fit(sizes: &Vec<i64>) -> (r: bool)
    ensures
        r == sizes_sum_fits(sizes@),
{
    let mut total: i64 = 0;
    let mut i: usize = 0;
    assert(sizes@.take(0) =~= Seq::<i64>::empty());
    while i < sizes.len()
        invariant
            i <= sizes@.len(),
            total == sum_sizes(sizes@.take(i as int)),
            forall|k: int| 0 <= k <= i ==> i64::MIN <= #[trigger] sum_sizes(sizes@.take(k)) <= i64::MAX,
        decreases sizes.len() - i,
    {
        assert(sizes@.take(i + 1).drop_last() == sizes@.take(i as int));
        assert(sizes@.take(i + 1).last() == sizes@[i as int]);
        match total.checked_add(sizes[i]) {
            Some(t) => {
                total = t;
            },
            None => {
                assert(!(i64::MIN <= sum_sizes(sizes@.take(i + 1)) <= i64::MAX));
                return false;
            },
        }
        i = i + 1;
    }
    assert(sizes@.take(sizes@.len() as int) == sizes@);
    true
}

/// The index of the last item equal to `key`: rows are found by their path
/// or file name, and a later row with the same one takes the place of an
/// earlier.
pub fn last_index_of_text(items: &Vec<String>, key: &str) -> (r: Option<usize>)
    ensures
        r matches Some(i) ==> i < items@.len() && items@[i as int]@ == key@ && forall|j: int|
            i < j < items@.len() ==> items@[j]@ != key@,
        r is None ==> forall|j: int| 0 <= j < items@.len() ==> items@[j]@ != key@,
{
    let mut found: Option<usize> = None;
    let mut i: usize = 0;
    while i < items.len()
        invariant
            i <= items@.len(),
            found matches Some(k) ==> k < i && items@[k as int]@ == key@ && forall|j: int|
                k < j < i ==> items@[j]@ != key@,
            found is None ==> forall|j: int| 0 <= j < i ==> items@[j]@ != key@,
        decreases items.len() - i,
    {
        if str_eq(items[i].as_str(), key) {
            found = Some(i);
        }
        i = i + 1;
    }
    found
}

/// What the page does with a transfer report.
#[derive(Debug, PartialEq, Eq)]
pub enum UiStep {
    /// Stop pulsing, show that the named file is being sent, and add that
    /// many bytes to its progress and to the total.
    Progress(String, u64),
    /// Pulse and show that the transfer waits.
    Waiting,
    /// Reset the page and stop following reports.
    Finished,
    /// The reports ended: stop following them.
    Closed,
}

/// Follows the reports of a transfer.
pub struct EventLoop {
    /// Whether the page gives up when reports stop coming for a while, once
    /// a file is being sent.
    pub file_timeout: bool,
    /// Whether reports are now waited for with a time limit.
    pub with_timeout: bool,
}

impl EventLoop {
    pub fn new(file_timeout: bool) -> (r: Self)
        ensures
            r.file_timeout == file_timeout,
            !r.with_timeout,
    {
        EventLoop { file_timeout, with_timeout: false }
    }

    /// What a report, or the end of reports (`None`), makes the page do; the
    /// first file report starts the time limit when the page asks for one.
    pub fn on_message(&mut self, msg: Option<UsbOperation>) -> (r: UiStep)
        ensures
            final(self).file_timeout == old(self).file_timeout,
            msg matches Some(UsbOperation::File(name, n)) ==> r == UiStep::Progress(name, n)
                && final(self).with_timeout == (old(self).with_timeout || old(self).file_timeout),
            !(msg matches Some(UsbOperation::File(_, _))) ==> final(self).with_timeout == old(
                self,
            ).with_timeout,
            msg matches Some(UsbOperation::Wait) ==> r == UiStep::Waiting,
            msg matches Some(UsbOperation::Exit) ==> r == UiStep::Finished,
            msg is None ==> r == UiStep::Closed,
    {
        match msg {
            Some(UsbOperation::File(name, n)) => {
                if !self.with_timeout && self.file_timeout {
                    self.with_timeout = true;
                }
                UiStep::Progress(name, n)
            },
            Some(UsbOperation::Wait) => UiStep::Waiting,
            Some(UsbOperation::Exit) => UiStep::Finished,
            None => UiStep::Closed,
        }
    }
}

/// What the device finder does when the home page shows another view.
#[derive(Debug, Clone, Copy, PartialEq, Eq, Structural)]
pub enum FinderAction {
    Start,
    Stop,
}

/// The finder runs while the `usb` view is shown.
pub fn finder_action(child: &str) -> (r: FinderAction)
    ensures
        r == (if child@ == "usb"@ {
            FinderAction::Start
        } else {
            FinderAction::Stop
        }),
{
    if str_eq(child, "usb") {
        FinderAction::Start
    } else {
        FinderAction::Stop
    }
}

/// Why a keys path is refused.
#[derive(Debug, Clone, Copy, PartialEq, Eq, Structural)]
pub enum KeysPathError {
    /// Nothing is at the path.
    Missing,
    /// The path is not a file.
    NotAFile,
    /// The file's extension is not `keys`.
    BadExtension,
}

/// Whether a keys path is accepted, given whether something is there,
/// whether it is a file, and its extension: checked in that order.
pub fn check_keys_path(exists: bool, is_file: bool, extension: Option<&str>) -> (r: Result<
    (),
    KeysPathError,
>)
    ensures
        !exists ==> r == Err::<(), KeysPathError>(KeysPathError::Missing),
        exists && !is_file ==> r == Err::<(), KeysPathError>(KeysPathError::NotAFile),
        exists && is_file ==> r == (if extension matches Some(e) && e@ == "keys"@ {
            Ok::<(), KeysPathError>(())
        } else {
            Err(KeysPathError::BadExtension)
        }),
{
    if !exists {
        return Err(KeysPathError::Missing);
    }
    if !is_file {
        return Err(KeysPathError::NotAFile);
    }
    match extension {
        Some(e) => if str_eq(e, "keys") {
            Ok(())
        } else {
            Err(KeysPathError::BadExtension)
        },
        None => Err(KeysPathError::BadExtension),
    }
}

} // verus!
