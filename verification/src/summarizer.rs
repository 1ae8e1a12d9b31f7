use vstd::prelude::*;
use crate::error::SauronError;
use crate::paths::{join_path, path_join};
use crate::processor::{OllamaRequest, generate_url, generate_url_of};
use crate::text::{
    byte_prefix_count, byte_prefix_len, chars_of, lemma_ascii_byte_prefix, lemma_split_on_join,
    lemma_split_on_plain, push_str_chars, split_chars, split_on, string_from_range, trim, trim_text,
};

verus! {

broadcast use vstd::string::group_string_axioms;

/// The words of the daily summary prompt before the date.
pub const DAILY_PROMPT_HEAD: &'static str = "Based on these chronological screen activity summaries from ";

/// The words of the daily summary prompt between the date and the timeline.
pub const DAILY_PROMPT_BODY: &'static str = ", create a concise daily activity log in markdown format. Group related activities, note time ranges, highlight key accomplishments. Use headers and bullet points.\n\n";

/// The heading of a daily activity log, before the date.
pub const LOG_HEADING: &'static str = "# Daily Activity Log \u{2014} ";

/// The view of the summaries of a day: (capture time, description) pairs.
pub open spec fn entries_view(entries: Seq<(String, String)>) -> Seq<(Seq<char>, Seq<char>)> {
    entries.map_values(|e: (String, String)| (e.0@, e.1@))
}

/// The clock time shown for the capture time `time`: the first five bytes
/// after the first `T` (up to the next `T`) when they end at a character
/// boundary, and the whole of `time` otherwise.
pub open spec fn time_short(time: Seq<char>) -> Seq<char> {
    let parts = split_on(time, 'T');
    if parts.len() >= 2 {
        match byte_prefix_len(parts[1], 5) {
            Some(k) => parts[1].take(k as int),
            None => time,
        }
    } else {
        time
    }
}

/// One line of the timeline: `[time] description`.
pub open spec fn timeline_line(time: Seq<char>, summary: Seq<char>) -> Seq<char> {
    "["@ + time_short(time) + "] "@ + summary
}

/// The timeline: one line per entry, in order, separated by newlines.
pub open spec fn timeline(entries: Seq<(Seq<char>, Seq<char>)>) -> Seq<char>
    decreases entries.len(),
{
    if entries.len() == 0 {
        Seq::empty()
    } else if entries.len() == 1 {
        timeline_line(entries[0].0, entries[0].1)
    } else {
        timeline(entries.drop_last()) + "\n"@ + timeline_line(entries.last().0, entries.last().1)
    }
}

/// The prompt that asks for the log of `date` from its timeline.
pub open spec fn daily_prompt(date: Seq<char>, entries: Seq<(Seq<char>, Seq<char>)>) -> Seq<char> {
    DAILY_PROMPT_HEAD@ + date + DAILY_PROMPT_BODY@ + timeline(entries)
}

/// The Markdown document of the log of `date` with the model's text
/// `content`.
pub open spec fn daily_markdown(date: Seq<char>, content: Seq<char>) -> Seq<char> {
    LOG_HEADING@ + date + "\n\n"@ + content + "\n"@
}

/// The clock time of an RFC 3339 capture time: for `date T rest`, where the
/// date holds no `T`, the rest holds no `T` and starts with five ASCII
/// characters (such as `14:03:05+01:00`), the time shown is those five
/// characters (`14:03`).
pub proof fn lemma_time_short_of_rfc3339(date: Seq<char>, rest: Seq<char>)
    requires
        !date.contains('T'),
        !rest.contains('T'),
        rest.len() >= 5,
        forall|i: int| 0 <= i < 5 ==> (#[trigger] rest[i] as u32) < 0x80,
    ensures
        time_short(date + seq!['T'] + rest) == rest.take(5),
{
    lemma_split_on_plain(date, 'T');
    lemma_split_on_join(date, rest, 'T');
    let parts = split_on(date + seq!['T'] + rest, 'T');
    assert(parts == seq![date, rest]);
    assert(parts[1] == rest);
    lemma_ascii_byte_prefix(rest, 5);
}

/// One line per entry: when no line holds a newline, the timeline of a
/// non-empty day split at its newlines gives exactly the entries' lines,
/// `[time] description`, one for each entry and in the entries' order, so
/// no entry is dropped or merged, not even one that shares its capture time
/// with the one before.
pub proof fn lemma_timeline_one_line_per_entry(entries: Seq<(Seq<char>, Seq<char>)>)
    requires
        entries.len() > 0,
        forall|k: int|
            0 <= k < entries.len() ==> !(#[trigger] timeline_line(entries[k].0, entries[k].1)).contains(
                '\n',
            ),
    ensures
        split_on(timeline(entries), '\n') == Seq::new(
            entries.len(),
            |k: int| timeline_line(entries[k].0, entries[k].1),
        ),
    decreases entries.len(),
{
    reveal_strlit("\n");
    if entries.len() == 1 {
        let l = timeline_line(entries[0].0, entries[0].1);
        assert(!l.contains('\n'));
        lemma_split_on_plain(l, '\n');
        assert(split_on(timeline(entries), '\n') =~= Seq::new(
            entries.len(),
            |k: int| timeline_line(entries[k].0, entries[k].1),
        ));
    } else {
        let init = entries.drop_last();
        assert forall|k: int|
            0 <= k < init.len() implies !(#[trigger] timeline_line(init[k].0, init[k].1)).contains(
            '\n',
        ) by {
            assert(init[k] == entries[k]);
            assert(!timeline_line(entries[k].0, entries[k].1).contains('\n'));
        }
        lemma_timeline_one_line_per_entry(init);
        let l = timeline_line(entries.last().0, entries.last().1);
        assert(!timeline_line(entries[entries.len() - 1].0, entries[entries.len() - 1].1).contains(
            '\n',
        ));
        assert(timeline(entries) == timeline(init) + "\n"@ + l);
        assert("\n"@ =~= seq!['\n']);
        lemma_split_on_join(timeline(init), l, '\n');
        assert(split_on(timeline(entries), '\n') =~= Seq::new(
            entries.len(),
            |k: int| timeline_line(entries[k].0, entries[k].1),
        ));
    }
}

/// The clock time shown for the capture time `time`.
pub fn short_time(time: &str) -> (r: String)
    ensures
        r@ == time_short(time@),
{
    let v = chars_of(time);
    let parts = split_chars(&v, 'T');
    let ghost pv = parts@.map_values(|p: Vec<char>| p@);
    assert(pv.len() == parts@.len());
    if parts.len() >= 2 {
        assert(pv[1] == parts@[1]@);
        match byte_prefix_count(&parts[1], 5) {
            Some(k) => {
                let r = string_from_range(&parts[1], 0, k);
                assert(r@ =~= pv[1].take(k as int));
                r
            },
            None => time.to_string(),
        }
    } else {
        time.to_string()
    }
}

/// Writes the daily summaries of one day into a Markdown log with Ollama.
pub struct Summarizer {
    pub base_url: String,
    pub text_model: String,
    pub output_dir: String,
}

impl Summarizer {
    pub fn new(base_url: String, text_model: String, output_dir: String) -> (s: Self)
        ensures
            s.base_url == base_url,
            s.text_model == text_model,
            s.output_dir == output_dir,
    {
        Summarizer { base_url, text_model, output_dir }
    }

    /// The timeline of the day's `entries` (capture time, description).
    pub fn timeline_text(entries: &Vec<(String, String)>) -> (r: String)
        ensures
            r@ == timeline(entries_view(entries@)),
    {
        let ghost ev = entries_view(entries@);
        let mut out = String::new();
        let mut i: usize = 0;
        while i < entries.len()
            invariant
                i <= entries.len(),
                ev == entries_view(entries@),
                out@ == timeline(ev.take(i as int)),
            decreases entries.len() - i,
        {
            assert(ev.take(i + 1).drop_last() =~= ev.take(i as int));
            assert(ev.take(i + 1).last() == (entries@[i as int].0@, entries@[i as int].1@));
            if i > 0 {
                push_str_chars(&mut out, "\n");
            }
            let t = short_time(entries[i].0.as_str());
            push_str_chars(&mut out, "[");
            push_str_chars(&mut out, t.as_str());
            push_str_chars(&mut out, "] ");
            push_str_chars(&mut out, entries[i].1.as_str());
            proof {
                if i == 0 {
                    assert(ev.take(1).len() == 1);
                    assert(ev.take(1)[0] == ev[0]);
                }
            }
            assert(out@ =~= timeline(ev.take(i + 1)));
            i = i + 1;
        }
        assert(ev.take(entries.len() as int) =~= ev);
        out
    }

    /// The request asking the text model for the log of `date` from the
    /// day's `entries`; there must be at least one.
    pub fn daily_request(&self, date: &str, entries: &Vec<(String, String)>) -> (r: Result<
        OllamaRequest,
        SauronError,
    >)
        ensures
            entries.len() == 0 ==> (r matches Err(SauronError::Ollama(msg)) && msg@
                == "No entries to summarize for "@ + date@),
            entries.len() > 0 ==> (r matches Ok(q) && q.url@ == generate_url_of(self.base_url@)
                && q.model@ == self.text_model@ && q.prompt@ == daily_prompt(
                date@,
                entries_view(entries@),
            ) && q.images is None && q.timeout_secs == 180),
    {
        if entries.len() == 0 {
            let mut msg = "No entries to summarize for ".to_string();
            push_str_chars(&mut msg, date);
            return Err(SauronError::Ollama(msg));
        }
        let timeline = Self::timeline_text(entries);
        let mut prompt = DAILY_PROMPT_HEAD.to_string();
        push_str_chars(&mut prompt, date);
        push_str_chars(&mut prompt, DAILY_PROMPT_BODY);
        push_str_chars(&mut prompt, timeline.as_str());
        Ok(
            OllamaRequest {
                url: generate_url(self.base_url.as_str()),
                model: self.text_model.clone(),
                prompt,
                images: None,
                timeout_secs: 180,
            },
        )
    }

    /// The file that holds the log of `date`: `date.md` in the output
    /// directory.
    pub fn log_path(&self, date: &str) -> (r: String)
        ensures
            r@ == path_join(self.output_dir@, date@ + ".md"@),
    {
        let mut name = date.to_string();
        push_str_chars(&mut name, ".md");
        join_path(self.output_dir.as_str(), name.as_str())
    }

    /// The log of `date` from the model's answer, whose `response` field is
    /// `response` when it is a string: the Markdown document and the file
    /// it goes to.
    pub fn daily_document(&self, date: &str, response: Option<String>) -> (r: Result<
        (String, String),
        SauronError,
    >)
        ensures
            match response {
                Some(t) => r matches Ok(d) && d.0@ == daily_markdown(date@, trim(t@)) && d.1@
                    == path_join(self.output_dir@, date@ + ".md"@),
                None => r matches Err(SauronError::Ollama(msg)) && msg@ == "No response field"@,
            },
    {
        match response {
            None => Err(SauronError::Ollama("No response field".to_string())),
            Some(t) => {
                let content = trim_text(t.as_str());
                let mut md = LOG_HEADING.to_string();
                push_str_chars(&mut md, date);
                push_str_chars(&mut md, "\n\n");
                push_str_chars(&mut md, content.as_str());
                push_str_chars(&mut md, "\n");
                Ok((md, self.log_path(date)))
            },
        }
    }
}

} // verus!
