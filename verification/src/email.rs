use vstd::prelude::*;
use crate::error::SauronError;
use crate::text::{chars_of, push_str_chars};

verus! {

broadcast use vstd::string::group_string_axioms;

/// Resend's endpoint for sending email.
pub const RESEND_URL: &'static str = "https://api.resend.com/emails";

/// The subject of a daily log email, before the date.
pub const SUBJECT_HEAD: &'static str = "Sauron Daily Log \u{2014} ";

/// The HTML that comes before the escaped log.
pub const HTML_HEAD: &'static str = "<html><body><pre style=\"font-family: monospace; white-space: pre-wrap;\">";

/// The HTML that comes after the escaped log.
pub const HTML_TAIL: &'static str = "</pre></body></html>";

/// What the character `c` becomes in escaped HTML: `&`, `<` and `>` become
/// entities, anything else stays.
pub open spec fn escape_char(c: char) -> Seq<char> {
    if c == '&' {
        "&amp;"@
    } else if c == '<' {
        "&lt;"@
    } else if c == '>' {
        "&gt;"@
    } else {
        seq![c]
    }
}

/// `s` with `&`, `<` and `>` replaced by their entities.
pub open spec fn html_escaped(s: Seq<char>) -> Seq<char>
    decreases s.len(),
{
    if s.len() == 0 {
        Seq::empty()
    } else {
        html_escaped(s.drop_last()) + escape_char(s.last())
    }
}

/// Escaped text holds no `<` and no `>`, so it cannot open or close a tag.
pub proof fn lemma_escaped_has_no_angle_brackets(s: Seq<char>)
    ensures
        forall|i: int|
            0 <= i < html_escaped(s).len() ==> #[trigger] html_escaped(s)[i] != '<'
                && html_escaped(s)[i] != '>',
    decreases s.len(),
{
    reveal_strlit("&amp;");
    reveal_strlit("&lt;");
    reveal_strlit("&gt;");
    if s.len() > 0 {
        lemma_escaped_has_no_angle_brackets(s.drop_last());
        let p = html_escaped(s.drop_last());
        let e = escape_char(s.last());
        let r = html_escaped(s);
        assert(r == p + e);
        assert forall|i: int| 0 <= i < r.len() implies #[trigger] r[i] != '<' && r[i] != '>' by {
            if i < p.len() {
                assert(r[i] == p[i]);
            } else {
                assert(r[i] == e[i - p.len()]);
            }
        }
    }
}

/// Whether one of the entities `&amp;`, `&lt;`, `&gt;` starts at `i` in `e`.
pub open spec fn entity_at(e: Seq<char>, i: int) -> bool {
    ||| (i + 5 <= e.len() && e.subrange(i, i + 5) == "&amp;"@)
    ||| (i + 4 <= e.len() && e.subrange(i, i + 4) == "&lt;"@)
    ||| (i + 4 <= e.len() && e.subrange(i, i + 4) == "&gt;"@)
}

/// `e` with the entities `&amp;`, `&lt;` and `&gt;` read back as `&`, `<`
/// and `>`, from left to right; any other character stays.
pub open spec fn html_unescaped(e: Seq<char>) -> Seq<char>
    decreases e.len(),
{
    if e.len() == 0 {
        Seq::empty()
    } else if e.len() >= 5 && e.take(5) == "&amp;"@ {
        seq!['&'] + html_unescaped(e.skip(5))
    } else if e.len() >= 4 && e.take(4) == "&lt;"@ {
        seq!['<'] + html_unescaped(e.skip(4))
    } else if e.len() >= 4 && e.take(4) == "&gt;"@ {
        seq!['>'] + html_unescaped(e.skip(4))
    } else {
        seq![e[0]] + html_unescaped(e.skip(1))
    }
}

/// Escaping text piece by piece is escaping it whole.
pub proof fn lemma_html_escaped_concat(a: Seq<char>, b: Seq<char>)
    ensures
        html_escaped(a + b) == html_escaped(a) + html_escaped(b),
    decreases b.len(),
{
    if b.len() == 0 {
        assert(a + b =~= a);
        assert(html_escaped(a) + html_escaped(b) =~= html_escaped(a));
    } else {
        lemma_html_escaped_concat(a, b.drop_last());
        assert((a + b).drop_last() =~= a + b.drop_last());
        assert((a + b).last() == b.last());
        assert(html_escaped(a) + html_escaped(b) =~= html_escaped(a) + html_escaped(b.drop_last())
            + escape_char(b.last()));
    }
}

/// In escaped text every `&` starts one of the three entities.
pub proof fn lemma_escaped_ampersands_start_entities(s: Seq<char>)
    ensures
        forall|i: int|
            0 <= i < html_escaped(s).len() && #[trigger] html_escaped(s)[i] == '&' ==> entity_at(
                html_escaped(s),
                i,
            ),
    decreases s.len(),
{
    reveal_strlit("&amp;");
    reveal_strlit("&lt;");
    reveal_strlit("&gt;");
    if s.len() > 0 {
        lemma_escaped_ampersands_start_entities(s.drop_last());
        let p = html_escaped(s.drop_last());
        let x = escape_char(s.last());
        let e = html_escaped(s);
        assert(e == p + x);
        assert forall|i: int| 0 <= i < e.len() && #[trigger] e[i] == '&' implies entity_at(e, i) by {
            if i < p.len() {
                assert(e[i] == p[i]);
                assert(entity_at(p, i));
                if i + 5 <= p.len() {
                    assert(e.subrange(i, i + 5) =~= p.subrange(i, i + 5));
                }
                if i + 4 <= p.len() {
                    assert(e.subrange(i, i + 4) =~= p.subrange(i, i + 4));
                }
            } else {
                assert(e[i] == x[i - p.len()]);
                let c = s.last();
                if c == '&' {
                    assert(i == p.len());
                    assert(e.subrange(i, i + 5) =~= "&amp;"@);
                } else if c == '<' {
                    assert(i == p.len());
                    assert(e.subrange(i, i + 4) =~= "&lt;"@);
                } else if c == '>' {
                    assert(i == p.len());
                    assert(e.subrange(i, i + 4) =~= "&gt;"@);
                }
            }
        }
    }
}

/// Reading the entities back gives the text that was escaped.
pub proof fn lemma_unescape_escaped(s: Seq<char>)
    ensures
        html_unescaped(html_escaped(s)) == s,
    decreases s.len(),
{
    reveal_strlit("&amp;");
    reveal_strlit("&lt;");
    reveal_strlit("&gt;");
    if s.len() > 0 {
        let c = s[0];
        let rest = s.skip(1);
        assert(s =~= seq![c] + rest);
        lemma_html_escaped_concat(seq![c], rest);
        assert(seq![c].drop_last() =~= Seq::<char>::empty());
        assert(seq![c].last() == c);
        assert(html_escaped(Seq::<char>::empty()) == Seq::<char>::empty());
        assert(html_escaped(seq![c]) =~= escape_char(c));
        let r = html_escaped(rest);
        let e = escape_char(c) + r;
        assert(html_escaped(s) == e);
        lemma_unescape_escaped(rest);
        if c == '&' {
            assert(e.take(5) =~= "&amp;"@);
            assert(e.skip(5) =~= r);
        } else if c == '<' {
            assert(e[1] == 'l');
            if e.len() >= 5 {
                assert(e.take(5)[1] != "&amp;"@[1]);
            }
            assert(e.take(4) =~= "&lt;"@);
            assert(e.skip(4) =~= r);
        } else if c == '>' {
            assert(e[1] == 'g');
            if e.len() >= 5 {
                assert(e.take(5)[1] != "&amp;"@[1]);
            }
            assert(e.take(4) != "&lt;"@) by {
                assert(e.take(4)[1] != "&lt;"@[1]);
            }
            assert(e.take(4) =~= "&gt;"@);
            assert(e.skip(4) =~= r);
        } else {
            assert(e[0] == c);
            assert(e.skip(1) =~= r);
            if e.len() >= 5 {
                assert(e.take(5)[0] != '&');
            }
            if e.len() >= 4 {
                assert(e.take(4)[0] != '&');
            }
        }
        assert(seq![c] + rest =~= s);
    }
}

/// Escapes `&`, `<` and `>` in `s` for HTML.
pub fn html_escape(s: &str) -> (r: String)
    ensures
        r@ == html_escaped(s@),
{
    let v = chars_of(s);
    let mut out = String::new();
    let mut i: usize = 0;
    while i < v.len()
        invariant
            i <= v.len(),
            v@ == s@,
            out@ == html_escaped(v@.take(i as int)),
        decreases v.len() - i,
    {
        assert(v@.take(i + 1).drop_last() =~= v@.take(i as int));
        let c = v[i];
        if c == '&' {
            push_str_chars(&mut out, "&amp;");
        } else if c == '<' {
            push_str_chars(&mut out, "&lt;");
        } else if c == '>' {
            push_str_chars(&mut out, "&gt;");
        } else {
            out.push(c);
        }
        assert(out@ =~= html_escaped(v@.take(i + 1)));
        i = i + 1;
    }
    assert(v@.take(v.len() as int) =~= v@);
    out
}

/// A message for Resend's API: it is sent as JSON with the `Authorization`
/// header.
pub struct EmailRequest {
    pub url: String,
    pub authorization: String,
    pub from: String,
    pub to: String,
    pub subject: String,
    pub html: String,
}

/// Mails the daily log through Resend.
pub struct Mailer {
    api_key: String,
    from: String,
    to: String,
}

impl Mailer {
    /// The API key.
    pub closed spec fn key(self) -> Seq<char> {
        self.api_key@
    }

    /// The sender.
    pub closed spec fn sender(self) -> Seq<char> {
        self.from@
    }

    /// The recipient.
    pub closed spec fn recipient(self) -> Seq<char> {
        self.to@
    }

    /// A mailer when email is configured, that is when the API key, the
    /// sender and the recipient are all given; `None` otherwise.
    pub fn new(api_key: String, from: String, to: String) -> (r: Option<Self>)
        ensures
            (api_key@.len() > 0 && from@.len() > 0 && to@.len() > 0) <==> r is Some,
            r matches Some(m) ==> m.key() == api_key@ && m.sender() == from@ && m.recipient()
                == to@,
    {
        if api_key.as_str().is_empty() || from.as_str().is_empty() || to.as_str().is_empty() {
            return None;
        }
        Some(Mailer { api_key, from, to })
    }

    /// The email of the log `markdown_content` of `date`: the log, escaped,
    /// in a preformatted HTML block.
    pub fn daily_email(&self, date: &str, markdown_content: &str) -> (r: EmailRequest)
        ensures
            r.url@ == RESEND_URL@,
            r.authorization@ == "Bearer "@ + self.key(),
            r.from@ == self.sender(),
            r.to@ == self.recipient(),
            r.subject@ == SUBJECT_HEAD@ + date@,
            r.html@ == HTML_HEAD@ + html_escaped(markdown_content@) + HTML_TAIL@,
    {
        let mut subject = SUBJECT_HEAD.to_string();
        push_str_chars(&mut subject, date);
        let mut html = HTML_HEAD.to_string();
        let escaped = html_escape(markdown_content);
        push_str_chars(&mut html, escaped.as_str());
        push_str_chars(&mut html, HTML_TAIL);
        let mut authorization = "Bearer ".to_string();
        push_str_chars(&mut authorization, self.api_key.as_str());
        EmailRequest {
            url: RESEND_URL.to_string(),
            authorization,
            from: self.from.clone(),
            to: self.to.clone(),
            subject,
            html,
        }
    }

    /// What Resend's answer means: success for a status from 200 to 299,
    /// and otherwise an error with the status as it prints (`status_text`)
    /// and the answer's body.
    pub fn email_outcome(code: u16, status_text: &str, body: &str) -> (r: Result<(), SauronError>)
        ensures
            200 <= code <= 299 ==> r is Ok,
            !(200 <= code <= 299) ==> (r matches Err(SauronError::Email(msg)) && msg@
                == "Resend API error ("@ + status_text@ + "): "@ + body@),
    {
        if 200 <= code && code <= 299 {
            return Ok(());
        }
        let mut msg = "Resend API error (".to_string();
        push_str_chars(&mut msg, status_text);
        push_str_chars(&mut msg, "): ");
        push_str_chars(&mut msg, body);
        Err(SauronError::Email(msg))
    }
}

} // verus!
