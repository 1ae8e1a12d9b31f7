use vstd::prelude::*;
use crate::config::CaptureConfig;
use crate::error::SauronError;
use crate::paths::{join_path, path_join};
use crate::text::{decimal_string, decimal_text, push_decimal, push_str_chars};

verus! {

broadcast use vstd::string::group_string_axioms;

/// One screenshot that was saved.
pub struct CaptureResult {
    pub captured_at: String,
    pub file_path: String,
    pub display_index: usize,
    pub display_label: String,
}

/// Takes screenshots into a directory of its own.
pub struct Capturer {
    screenshot_dir: String,
}

/// One display to capture in a cycle, with where its screenshot goes.
pub struct CaptureTarget {
    /// The display's index, counted from 0.
    pub display_index: usize,
    /// `display-` and the index.
    pub display_label: String,
    /// The display's number for `screencapture -D`, counted from 1.
    pub display_arg: String,
    /// Where the screenshot is saved.
    pub file_path: String,
}

/// The screenshots of one capture cycle: all share the directory of the day
/// and the capture time.
pub struct CapturePlan {
    /// The directory for the day's screenshots.
    pub dir: String,
    /// When the cycle started, as RFC 3339 text.
    pub captured_at: String,
    /// The displays to capture, in order.
    pub targets: Vec<CaptureTarget>,
}

/// The number of active displays that the system reports: a failed query
/// (status other than 0) or a count of 0 counts as one display.
pub fn display_count_or_default(status: i32, count: u32) -> (r: u32)
    ensures
        r == (if status != 0 || count == 0 {
            1
        } else {
            count
        }),
{
    if status != 0 || count == 0 {
        1
    } else {
        count
    }
}

/// The displays among `monitors` that exist when there are `total` of them,
/// in the order given.
pub open spec fn existing_displays(monitors: Seq<usize>, total: usize) -> Seq<usize>
    decreases monitors.len(),
{
    if monitors.len() == 0 {
        Seq::empty()
    } else {
        let p = existing_displays(monitors.drop_last(), total);
        if monitors.last() < total {
            p.push(monitors.last())
        } else {
            p
        }
    }
}

/// The displays to capture: those of the configured list that exist, or
/// every display `0..total` when no list is configured.
pub open spec fn displays_to_capture(monitors: Option<Seq<usize>>, total: usize) -> Seq<usize> {
    match monitors {
        Some(m) => existing_displays(m, total),
        None => Seq::new(total as nat, |i: int| i as usize),
    }
}

proof fn lemma_existing_displays_below(m: Seq<usize>, total: usize)
    ensures
        forall|j: int|
            0 <= j < existing_displays(m, total).len() ==> #[trigger] existing_displays(
                m,
                total,
            )[j] < total,
    decreases m.len(),
{
    if m.len() > 0 {
        lemma_existing_displays_below(m.drop_last(), total);
        let p = existing_displays(m.drop_last(), total);
        let r = existing_displays(m, total);
        assert forall|j: int| 0 <= j < r.len() implies #[trigger] r[j] < total by {
            if j < p.len() {
                assert(r[j] == p[j]);
            }
        }
    }
}

/// Every display chosen for capture exists.
pub proof fn lemma_selected_displays_exist(monitors: Option<Seq<usize>>, total: usize)
    ensures
        forall|j: int|
            0 <= j < displays_to_capture(monitors, total).len() ==> #[trigger] displays_to_capture(
                monitors,
                total,
            )[j] < total,
{
    match monitors {
        Some(m) => lemma_existing_displays_below(m, total),
        None => {},
    }
}

/// Whether `prefix` is how `s` begins.
pub open spec fn begins_with(s: Seq<char>, prefix: Seq<char>) -> bool {
    prefix.len() <= s.len() && s.take(prefix.len() as int) == prefix
}

/// Whether the path `p` is relative (does not start with `/`).
pub open spec fn is_relative(p: Seq<char>) -> bool {
    !(p.len() > 0 && p[0] == '/')
}

proof fn lemma_join_keeps_base(base: Seq<char>, rel: Seq<char>)
    requires
        is_relative(rel),
    ensures
        begins_with(path_join(base, rel), base),
{
    assert(path_join(base, rel).take(base.len() as int) =~= base);
}

/// Every screenshot of a capture cycle lies under the capturer's
/// directory, as long as the day's directory and the time stem are
/// relative (as dates and times written `YYYY-MM-DD` and `HH-MM-SS` are).
pub proof fn lemma_screenshots_under_dir(
    dir: Seq<char>,
    date_dir: Seq<char>,
    time_stem: Seq<char>,
    idx: usize,
)
    requires
        is_relative(date_dir),
        is_relative(time_stem),
    ensures
        begins_with(path_join(path_join(dir, date_dir), screenshot_name(time_stem, idx)), dir),
{
    reveal_strlit("_");
    let day = path_join(dir, date_dir);
    let name = screenshot_name(time_stem, idx);
    lemma_join_keeps_base(dir, date_dir);
    if time_stem.len() > 0 {
        assert(name[0] == time_stem[0]);
    } else {
        assert(name[0] == '_');
    }
    lemma_join_keeps_base(day, name);
    let f = path_join(day, name);
    assert(f.take(dir.len() as int) =~= f.take(day.len() as int).take(dir.len() as int));
}

/// The view of an optional list of display indices.
pub open spec fn monitors_view(m: Option<Vec<usize>>) -> Option<Seq<usize>> {
    match m {
        Some(v) => Some(v@),
        None => None,
    }
}

/// The label of display `idx`: `display-` and its index.
pub open spec fn display_label_of(idx: usize) -> Seq<char> {
    "display-"@ + decimal_string(idx as nat)
}

/// The file name of the screenshot of display `idx` taken at `time_stem`.
pub open spec fn screenshot_name(time_stem: Seq<char>, idx: usize) -> Seq<char> {
    time_stem + "_"@ + display_label_of(idx) + ".png"@
}

/// A list of display indices as `{:?}` prints it, without the brackets.
pub open spec fn index_list_text(v: Seq<usize>) -> Seq<char>
    decreases v.len(),
{
    if v.len() == 0 {
        Seq::empty()
    } else if v.len() == 1 {
        decimal_string(v[0] as nat)
    } else {
        index_list_text(v.drop_last()) + ", "@ + decimal_string(v.last() as nat)
    }
}

/// An optional list of display indices as `{:?}` prints it.
pub open spec fn monitors_debug(m: Option<Seq<usize>>) -> Seq<char> {
    match m {
        Some(v) => "Some(["@ + index_list_text(v) + "])"@,
        None => "None"@,
    }
}

/// The message when no configured display exists.
pub open spec fn no_displays_message(total: usize, m: Option<Seq<usize>>) -> Seq<char> {
    "No valid displays to capture (total="@ + decimal_string(total as nat) + ", filter="@
        + monitors_debug(m) + ")"@
}

/// The displays to capture when there are `total` displays.
pub fn select_displays(monitors: &Option<Vec<usize>>, total: usize) -> (r: Vec<usize>)
    ensures
        r@ == displays_to_capture(monitors_view(*monitors), total),
{
    let mut out: Vec<usize> = Vec::new();
    match monitors {
        Some(m) => {
            let mut i: usize = 0;
            while i < m.len()
                invariant
                    i <= m.len(),
                    out@ == existing_displays(m@.take(i as int), total),
                decreases m.len() - i,
            {
                assert(m@.take(i + 1).drop_last() =~= m@.take(i as int));
                if m[i] < total {
                    out.push(m[i]);
                }
                i = i + 1;
            }
            assert(m@.take(m.len() as int) =~= m@);
        },
        None => {
            let mut i: usize = 0;
            while i < total
                invariant
                    i <= total,
                    out@ =~= Seq::new(i as nat, |k: int| k as usize),
                decreases total - i,
            {
                out.push(i);
                i = i + 1;
            }
        },
    }
    out
}

fn push_index_list(out: &mut String, v: &Vec<usize>)
    ensures
        final(out)@ == old(out)@ + index_list_text(v@),
{
    let mut i: usize = 0;
    while i < v.len()
        invariant
            i <= v.len(),
            out@ == old(out)@ + index_list_text(v@.take(i as int)),
        decreases v.len() - i,
    {
        assert(v@.take(i + 1).drop_last() =~= v@.take(i as int));
        if i > 0 {
            push_str_chars(out, ", ");
        }
        push_decimal(out, v[i] as u64);
        proof {
            if i == 0 {
                assert(v@.take(1).len() == 1);
            }
        }
        assert(out@ =~= old(out)@ + index_list_text(v@.take(i + 1)));
        i = i + 1;
    }
    assert(v@.take(v.len() as int) =~= v@);
}

fn no_displays_error(total: usize, monitors: &Option<Vec<usize>>) -> (r: String)
    ensures
        r@ == no_displays_message(total, monitors_view(*monitors)),
{
    let mut s = "No valid displays to capture (total=".to_string();
    push_decimal(&mut s, total as u64);
    push_str_chars(&mut s, ", filter=");
    match monitors {
        Some(v) => {
            push_str_chars(&mut s, "Some([");
            push_index_list(&mut s, v);
            push_str_chars(&mut s, "])");
        },
        None => {
            push_str_chars(&mut s, "None");
        },
    }
    push_str_chars(&mut s, ")");
    assert(s@ =~= no_displays_message(total, monitors_view(*monitors)));
    s
}

impl CaptureTarget {
    /// Whether this is display `idx` of a cycle saving into `dir` at
    /// `time_stem`.
    pub open spec fn describes(self, dir: Seq<char>, time_stem: Seq<char>, idx: usize) -> bool {
        &&& self.display_index == idx
        &&& self.display_label@ == display_label_of(idx)
        &&& self.display_arg@ == decimal_string(idx as nat + 1)
        &&& self.file_path@ == path_join(dir, screenshot_name(time_stem, idx))
    }
}

impl Capturer {
    pub fn new(screenshot_dir: String) -> (c: Self)
        ensures
            c.dir() == screenshot_dir@,
    {
        Capturer { screenshot_dir }
    }

    /// The directory under which screenshots are saved.
    pub closed spec fn dir(self) -> Seq<char> {
        self.screenshot_dir@
    }

    /// Plans one capture cycle when the system reports `total_displays`
    /// displays, at the local date `date_dir` (`YYYY-MM-DD`), time
    /// `time_stem` (`HH-MM-SS`) and instant `captured_at`: one screenshot per
    /// display to capture, all in the day's directory and under the same
    /// time. Fails when no display is to be captured.
    pub fn plan_captures(
        &self,
        capture_config: &CaptureConfig,
        total_displays: usize,
        date_dir: &str,
        time_stem: &str,
        captured_at: &str,
    ) -> (r: Result<CapturePlan, SauronError>)
        ensures
            ({
                let sel = displays_to_capture(
                    monitors_view(capture_config.monitors),
                    total_displays,
                );
                match r {
                    Err(e) => {
                        &&& sel.len() == 0
                        &&& e matches SauronError::Capture(msg)
                        &&& msg@ == no_displays_message(
                            total_displays,
                            monitors_view(capture_config.monitors),
                        )
                    },
                    Ok(p) => {
                        &&& sel.len() > 0
                        &&& p.dir@ == path_join(self.dir(), date_dir@)
                        &&& p.captured_at@ == captured_at@
                        &&& p.targets.len() == sel.len()
                        &&& forall|k: int|
                            0 <= k < sel.len() ==> #[trigger] p.targets@[k].describes(
                                p.dir@,
                                time_stem@,
                                sel[k],
                            )
                        &&& is_relative(date_dir@) && is_relative(time_stem@) ==> forall|k: int|
                            0 <= k < sel.len() ==> begins_with(
                                #[trigger] p.targets@[k].file_path@,
                                self.dir(),
                            )
                    },
                }
            }),
    {
        let indices = select_displays(&capture_config.monitors, total_displays);
        if indices.len() == 0 {
            return Err(
                SauronError::Capture(no_displays_error(total_displays, &capture_config.monitors)),
            );
        }
        let dir = join_path(self.screenshot_dir.as_str(), date_dir);
        proof {
            lemma_selected_displays_exist(monitors_view(capture_config.monitors), total_displays);
        }
        let mut targets: Vec<CaptureTarget> = Vec::new();
        let mut k: usize = 0;
        while k < indices.len()
            invariant
                k <= indices.len(),
                indices@ == displays_to_capture(monitors_view(capture_config.monitors), total_displays),
                forall|j: int| 0 <= j < indices.len() ==> #[trigger] indices@[j] < total_displays,
                targets.len() == k,
                forall|j: int|
                    0 <= j < k ==> #[trigger] targets@[j].describes(dir@, time_stem@, indices@[j]),
            decreases indices.len() - k,
        {
            let idx = indices[k];
            let mut label = "display-".to_string();
            push_decimal(&mut label, idx as u64);
            let mut name = time_stem.to_string();
            push_str_chars(&mut name, "_");
            push_str_chars(&mut name, label.as_str());
            push_str_chars(&mut name, ".png");
            let file_path = join_path(dir.as_str(), name.as_str());
            let display_arg = decimal_text((idx + 1) as u64);
            assert(name@ =~= screenshot_name(time_stem@, idx));
            targets.push(
                CaptureTarget { display_index: idx, display_label: label, display_arg, file_path },
            );
            k = k + 1;
        }
        proof {
            if is_relative(date_dir@) && is_relative(time_stem@) {
                assert forall|k: int| 0 <= k < targets.len() implies begins_with(
                    #[trigger] targets@[k].file_path@,
                    self.dir(),
                ) by {
                    assert(targets@[k].describes(dir@, time_stem@, indices@[k]));
                    assert(dir@ == path_join(self.dir(), date_dir@));
                    lemma_screenshots_under_dir(self.dir(), date_dir@, time_stem@, indices@[k]);
                }
            }
        }
        Ok(CapturePlan { dir, captured_at: captured_at.to_string(), targets })
    }
}

/// The positions of `true` in `ok`, in order.
pub open spec fn kept_indices(ok: Seq<bool>) -> Seq<int>
    decreases ok.len(),
{
    if ok.len() == 0 {
        Seq::empty()
    } else {
        let p = kept_indices(ok.drop_last());
        if ok.last() {
            p.push(ok.len() - 1)
        } else {
            p
        }
    }
}

proof fn lemma_kept_indices_bound(ok: Seq<bool>)
    ensures
        forall|j: int|
            0 <= j < kept_indices(ok).len() ==> 0 <= #[trigger] kept_indices(ok)[j] < ok.len()
                && ok[kept_indices(ok)[j]],
    decreases ok.len(),
{
    if ok.len() > 0 {
        lemma_kept_indices_bound(ok.drop_last());
        let p = kept_indices(ok.drop_last());
        let r = kept_indices(ok);
        assert forall|j: int| 0 <= j < r.len() implies 0 <= #[trigger] r[j] < ok.len() && ok[r[j]] by {
            if j < p.len() {
                assert(r[j] == p[j]);
                assert(ok[p[j]] == ok.drop_last()[p[j]]);
            }
        }
    }
}

/// Every saved target is kept and nothing else is: a position is among
/// the kept ones exactly when its capture succeeded, and the kept positions
/// come in increasing order. So a cycle fails only when no capture
/// succeeded.
pub proof fn lemma_kept_indices_are_the_successes(ok: Seq<bool>)
    ensures
        forall|k: int| 0 <= k < ok.len() ==> (ok[k] <==> kept_indices(ok).contains(k)),
        forall|i: int, j: int|
            0 <= i < j < kept_indices(ok).len() ==> kept_indices(ok)[i] < kept_indices(ok)[j],
        kept_indices(ok).len() == 0 <==> forall|k: int| 0 <= k < ok.len() ==> !ok[k],
    decreases ok.len(),
{
    lemma_kept_indices_bound(ok);
    if ok.len() > 0 {
        let q = ok.drop_last();
        lemma_kept_indices_are_the_successes(q);
        lemma_kept_indices_bound(q);
        let p = kept_indices(q);
        let r = kept_indices(ok);
        assert forall|k: int| 0 <= k < ok.len() implies (ok[k] <==> r.contains(k)) by {
            if k < ok.len() - 1 {
                assert(ok[k] == q[k]);
                if p.contains(k) {
                    let j = choose|j: int| 0 <= j < p.len() && p[j] == k;
                    assert(r[j] == k);
                }
                if r.contains(k) {
                    let j = choose|j: int| 0 <= j < r.len() && r[j] == k;
                    if j < p.len() {
                        assert(r[j] == p[j]);
                    } else {
                        assert(r[j] == ok.len() - 1);
                    }
                }
            } else {
                if ok[k] {
                    assert(r[r.len() - 1] == k);
                } else {
                    assert(r == p);
                    if r.contains(k) {
                        let j = choose|j: int| 0 <= j < r.len() && r[j] == k;
                        assert(p[j] < q.len());
                    }
                }
            }
        }
        assert forall|i: int, j: int| 0 <= i < j < r.len() implies r[i] < r[j] by {
            if j < p.len() {
                assert(r[i] == p[i] && r[j] == p[j]);
            } else {
                assert(r[i] == p[i]);
                assert(p[i] < q.len());
            }
        }
        if r.len() == 0 {
            assert forall|k: int| 0 <= k < ok.len() implies !ok[k] by {
                if ok[k] {
                    assert(r.contains(k));
                }
            }
        } else {
            let k0 = r[0];
            assert(0 <= k0 < ok.len() && ok[k0]);
        }
    }
}

impl CaptureResult {
    /// Whether this is the saved screenshot of `target`, taken at `at`.
    pub open spec fn saved_from(self, target: CaptureTarget, at: Seq<char>) -> bool {
        &&& self.captured_at@ == at
        &&& self.file_path@ == target.file_path@
        &&& self.display_index == target.display_index
        &&& self.display_label@ == target.display_label@
    }
}

impl CapturePlan {
    /// The outcome of the cycle once each target's screenshot has been
    /// tried, `ok[k]` telling whether target `k` was saved: the saved ones,
    /// in order, or an error when none was.
    pub fn collect(&self, ok: &Vec<bool>) -> (r: Result<Vec<CaptureResult>, SauronError>)
        requires
            ok.len() == self.targets.len(),
        ensures
            r is Err <==> forall|k: int| 0 <= k < ok.len() ==> !ok@[k],
            match r {
                Err(e) => {
                    &&& kept_indices(ok@).len() == 0
                    &&& e matches SauronError::Capture(msg)
                    &&& msg@ == "All display captures failed"@
                },
                Ok(v) => {
                    &&& kept_indices(ok@).len() > 0
                    &&& v.len() == kept_indices(ok@).len()
                    &&& forall|j: int|
                        0 <= j < v.len() ==> 0 <= #[trigger] kept_indices(ok@)[j] < ok.len()
                            && ok@[kept_indices(ok@)[j]]
                    &&& forall|j: int|
                        0 <= j < v.len() ==> #[trigger] v@[j].saved_from(
                            self.targets@[kept_indices(ok@)[j]],
                            self.captured_at@,
                        )
                },
            },
    {
        let mut out: Vec<CaptureResult> = Vec::new();
        let mut k: usize = 0;
        while k < ok.len()
            invariant
                k <= ok.len() == self.targets.len(),
                out.len() == kept_indices(ok@.take(k as int)).len(),
                forall|j: int|
                    0 <= j < out.len() ==> #[trigger] out@[j].saved_from(
                        self.targets@[kept_indices(ok@.take(k as int))[j]],
                        self.captured_at@,
                    ),
            decreases ok.len() - k,
        {
            assert(ok@.take(k + 1).drop_last() =~= ok@.take(k as int));
            if ok[k] {
                let t = &self.targets[k];
                out.push(
                    CaptureResult {
                        captured_at: self.captured_at.clone(),
                        file_path: t.file_path.clone(),
                        display_index: t.display_index,
                        display_label: t.display_label.clone(),
                    },
                );
            }
            k = k + 1;
        }
        assert(ok@.take(ok.len() as int) =~= ok@);
        proof {
            lemma_kept_indices_bound(ok@);
            lemma_kept_indices_are_the_successes(ok@);
        }
        if out.len() == 0 {
            return Err(SauronError::Capture("All display captures failed".to_string()));
        }
        Ok(out)
    }
}

} // verus!
