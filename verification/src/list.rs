//! The paginated listing stream: a lazy, finite, forward-only sequence of
//! child entries under a key prefix, refilled page by page through an
//! evolving continuation token.  An empty token from the store means no
//! further page exists.

use crate::strutil::{
    chars_to_string, find_pat, find_pat_from, lemma_find_pat_from_bounds, string_to_chars,
};
use vstd::prelude::*;

verus! {

/// The text of each `<tag>value</tag>` element of `s` at or after `from`,
/// scanning left to right: after an opening tag the value runs to the
/// next closing tag.
pub open spec fn tag_values_from(
    s: Seq<char>,
    open: Seq<char>,
    close: Seq<char>,
    from: int,
) -> Seq<Seq<char>>
    decreases s.len() - from,
    via tag_values_from_decreases
{
    if open.len() == 0 || close.len() == 0 {
        Seq::empty()
    } else {
        match find_pat_from(s, open, from) {
            None => Seq::empty(),
            Some(i) => match find_pat_from(s, close, i + open.len()) {
                None => Seq::empty(),
                Some(j) => seq![s.subrange(i + open.len(), j)] + tag_values_from(
                    s,
                    open,
                    close,
                    j + close.len(),
                ),
            },
        }
    }
}

#[via_fn]
proof fn tag_values_from_decreases(s: Seq<char>, open: Seq<char>, close: Seq<char>, from: int) {
    if open.len() > 0 && close.len() > 0 {
        lemma_find_pat_from_bounds(s, open, from);
        match find_pat_from(s, open, from) {
            None => {},
            Some(i) => {
                lemma_find_pat_from_bounds(s, close, i + open.len());
            },
        }
    }
}

/// The text of each `<tag>value</tag>` element of `s`.
pub open spec fn tag_values_spec(s: Seq<char>, open: Seq<char>, close: Seq<char>) -> Seq<
    Seq<char>,
> {
    tag_values_from(s, open, close, 0)
}

fn tag_values_chars(xml: &Vec<char>, open: &Vec<char>, close: &Vec<char>) -> (r: Vec<Vec<char>>)
    requires
        open@.len() > 0,
        close@.len() > 0,
    ensures
        r.deep_view() == tag_values_spec(xml@, open@, close@),
{
    let n = xml.len();
    let mut out: Vec<Vec<char>> = Vec::new();
    let mut pos: usize = 0;
    let ghost mut acc: Seq<Seq<char>> = Seq::empty();
    proof {
        assert(acc + tag_values_from(xml@, open@, close@, 0) =~= tag_values_from(
            xml@,
            open@,
            close@,
            0,
        ));
    }
    loop
        invariant
            open@.len() > 0,
            close@.len() > 0,
            n == xml@.len(),
            pos <= n,
            out@.len() == acc.len(),
            forall|t: int| 0 <= t < out@.len() ==> (#[trigger] out@[t])@ == acc[t],
            tag_values_spec(xml@, open@, close@) == acc + tag_values_from(
                xml@,
                open@,
                close@,
                pos as int,
            ),
        decreases n - pos,
    {
        let found = match find_pat(xml, open, pos) {
            None => None,
            Some(i) => {
                match find_pat(xml, close, i + open.len()) {
                    None => None,
                    Some(j) => Some((i, j)),
                }
            },
        };
        match found {
            None => {
                proof {
                    assert(tag_values_from(xml@, open@, close@, pos as int)
                        =~= Seq::<Seq<char>>::empty());
                    assert(acc + Seq::<Seq<char>>::empty() =~= acc);
                    assert forall|t: int| 0 <= t < out@.len() implies out.deep_view()[t]
                        == acc[t] by {
                        assert(out.deep_view()[t] == out@[t].deep_view());
                        assert(out@[t].deep_view() =~= out@[t]@);
                    }
                    assert(out.deep_view() =~~= acc);
                }
                return out;
            },
            Some((i, j)) => {
                let start = i + open.len();
                let mut v: Vec<char> = Vec::new();
                let mut k = start;
                while k < j
                    invariant
                        start <= k <= j,
                        j <= xml@.len(),
                        v@ == xml@.subrange(start as int, k as int),
                    decreases j - k,
                {
                    v.push(xml[k]);
                    k = k + 1;
                    proof {
                        assert(v@ =~= xml@.subrange(start as int, k as int));
                    }
                }
                out.push(v);
                proof {
                    acc = acc + seq![xml@.subrange(start as int, j as int)];
                    assert(tag_values_from(xml@, open@, close@, pos as int) == seq![
                        xml@.subrange(start as int, j as int),
                    ] + tag_values_from(xml@, open@, close@, j + close@.len()));
                    assert(tag_values_spec(xml@, open@, close@) =~= acc + tag_values_from(
                        xml@,
                        open@,
                        close@,
                        j + close@.len(),
                    ));
                }
                pos = j + close.len();
            },
        }
    }
}

/// The common-prefix values of each listing section, in order.
pub open spec fn prefix_values(sections: Seq<Seq<char>>) -> Seq<Seq<char>>
    decreases sections.len(),
{
    if sections.len() == 0 {
        Seq::empty()
    } else {
        prefix_values(sections.drop_last()) + tag_values_spec(
            sections.last(),
            "<Prefix>"@,
            "</Prefix>"@,
        )
    }
}

/// What a listing page holds as immediate children: its object keys, then
/// the prefix of each of its common-prefix sections.
pub open spec fn page_entries_spec(x: Seq<char>) -> Seq<Seq<char>> {
    tag_values_spec(x, "<Key>"@, "</Key>"@) + prefix_values(
        tag_values_spec(x, "<CommonPrefixes>"@, "</CommonPrefixes>"@),
    )
}

/// The page's continuation token: the first token element's text, or
/// empty when the page is the last.
pub open spec fn page_token_spec(x: Seq<char>) -> Seq<char> {
    let vs = tag_values_spec(x, "<NextContinuationToken>"@, "</NextContinuationToken>"@);
    if vs.len() == 0 {
        Seq::<char>::empty()
    } else {
        vs[0]
    }
}

/// Decodes one listing page from the store's XML body: the child entries
/// (object keys, then common prefixes) and the continuation token, empty
/// when no further page exists.
pub fn parse_listing_page(xml: &str) -> (r: (Vec<String>, String))
    ensures
        r.0.deep_view() == page_entries_spec(xml@),
        r.1@ == page_token_spec(xml@),
{
    let xc = string_to_chars(xml);
    let key_open = string_to_chars("<Key>");
    let key_close = string_to_chars("</Key>");
    let cp_open = string_to_chars("<CommonPrefixes>");
    let cp_close = string_to_chars("</CommonPrefixes>");
    let p_open = string_to_chars("<Prefix>");
    let p_close = string_to_chars("</Prefix>");
    let t_open = string_to_chars("<NextContinuationToken>");
    let t_close = string_to_chars("</NextContinuationToken>");
    proof {
        reveal_strlit("<Key>");
        reveal_strlit("</Key>");
        reveal_strlit("<CommonPrefixes>");
        reveal_strlit("</CommonPrefixes>");
        reveal_strlit("<Prefix>");
        reveal_strlit("</Prefix>");
        reveal_strlit("<NextContinuationToken>");
        reveal_strlit("</NextContinuationToken>");
    }
    let keys = tag_values_chars(&xc, &key_open, &key_close);
    let ghost keys_spec = tag_values_spec(xml@, "<Key>"@, "</Key>"@);
    let mut entries: Vec<String> = Vec::new();
    let mut ki: usize = 0;
    while ki < keys.len()
        invariant
            ki <= keys.len(),
            keys.deep_view() == keys_spec,
            entries@.len() == ki,
            forall|t: int| 0 <= t < ki ==> (#[trigger] entries@[t])@ == keys_spec[t],
        decreases keys.len() - ki,
    {
        proof {
            assert(keys@[ki as int].deep_view() =~= keys@[ki as int]@);
        }
        entries.push(chars_to_string(&keys[ki]));
        ki = ki + 1;
    }
    let sections = tag_values_chars(&xc, &cp_open, &cp_close);
    let ghost sections_spec = tag_values_spec(xml@, "<CommonPrefixes>"@, "</CommonPrefixes>"@);
    let ghost mut expect = keys_spec;
    let mut si: usize = 0;
    while si < sections.len()
        invariant
            si <= sections.len(),
            sections.deep_view() == sections_spec,
            p_open@ == "<Prefix>"@,
            p_close@ == "</Prefix>"@,
            p_open@.len() > 0,
            p_close@.len() > 0,
            expect == keys_spec + prefix_values(sections_spec.take(si as int)),
            entries@.len() == expect.len(),
            forall|t: int| 0 <= t < entries@.len() ==> (#[trigger] entries@[t])@ == expect[t],
        decreases sections.len() - si,
    {
        proof {
            assert(sections@[si as int].deep_view() =~= sections@[si as int]@);
        }
        let ps = tag_values_chars(&sections[si], &p_open, &p_close);
        let ghost ps_spec = tag_values_spec(sections_spec[si as int], "<Prefix>"@, "</Prefix>"@);
        let mut pi: usize = 0;
        while pi < ps.len()
            invariant
                pi <= ps.len(),
                ps.deep_view() == ps_spec,
                entries@.len() == expect.len() + pi,
                forall|t: int|
                    0 <= t < entries@.len() ==> (#[trigger] entries@[t])@ == (expect + ps_spec.take(
                        pi as int,
                    ))[t],
            decreases ps.len() - pi,
        {
            proof {
                assert(ps@[pi as int].deep_view() =~= ps@[pi as int]@);
            }
            entries.push(chars_to_string(&ps[pi]));
            pi = pi + 1;
        }
        si = si + 1;
        proof {
            assert(ps_spec.take(ps_spec.len() as int) =~= ps_spec);
            assert(sections_spec.take(si as int).drop_last() =~= sections_spec.take(si - 1));
            assert(sections_spec.take(si as int).last() == sections_spec[si - 1]);
            expect = expect + ps_spec;
            assert(expect =~= keys_spec + prefix_values(sections_spec.take(si as int)));
        }
    }
    proof {
        assert(sections_spec.take(sections_spec.len() as int) =~= sections_spec);
        assert(expect =~= page_entries_spec(xml@));
        assert forall|t: int| 0 <= t < entries@.len() implies entries.deep_view()[t]
            == expect[t] by {
            assert(entries.deep_view()[t] == entries@[t].deep_view());
        }
        assert(entries.deep_view() =~~= page_entries_spec(xml@));
    }
    let tokens = tag_values_chars(&xc, &t_open, &t_close);
    let token: String = if tokens.len() == 0 {
        String::new()
    } else {
        proof {
            assert(tokens@[0].deep_view() =~= tokens@[0]@);
        }
        chars_to_string(&tokens[0])
    };
    (entries, token)
}

/// The state of a listing stream, as contracts see it.
#[verifier::ext_equal]
pub struct ListStateView {
    pub prefix: Seq<char>,
    pub page: Seq<Seq<char>>,
    pub cursor: int,
    pub token: Seq<char>,
    pub exhausted: bool,
    pub yielded: Seq<Seq<char>>,
}

/// What the consumer of a listing stream must do next: surface an entry,
/// fetch the next page with the given continuation token (empty on the
/// first call), or stop.
pub enum ListStep {
    Entry(String),
    Fetch(String),
    Done,
}

/// A listing stream.  Once exhausted it cannot be rewound; a fresh listing
/// needs a fresh instance.  `yielded` records, in ghost state, every entry
/// handed out so far.
pub struct ListState {
    prefix: String,
    page: Vec<String>,
    cursor: usize,
    token: String,
    exhausted: bool,
    yielded: Ghost<Seq<Seq<char>>>,
}

impl View for ListState {
    type V = ListStateView;

    closed spec fn view(&self) -> ListStateView {
        ListStateView {
            prefix: self.prefix@,
            page: self.page.deep_view(),
            cursor: self.cursor as int,
            token: self.token@,
            exhausted: self.exhausted,
            yielded: self.yielded@,
        }
    }
}

impl ListState {
    pub open spec fn wf(&self) -> bool {
        self@.cursor <= self@.page.len()
    }

    /// A fresh stream over the children of `prefix`; nothing fetched yet.
    pub fn new(prefix: String) -> (s: ListState)
        ensures
            s@.prefix == prefix@,
            s@.page.len() == 0,
            s@.cursor == 0,
            s@.token.len() == 0,
            !s@.exhausted,
            s@.yielded.len() == 0,
            s.wf(),
    {
        ListState {
            prefix,
            page: Vec::new(),
            cursor: 0,
            token: String::new(),
            exhausted: false,
            yielded: Ghost(Seq::empty()),
        }
    }

    /// The prefix this stream lists under.
    pub fn prefix(&self) -> (p: &String)
        ensures
            p@ == self@.prefix,
    {
        &self.prefix
    }

    /// Advances the stream: yields the next buffered entry; with the
    /// buffer drained, asks for the next page while one may exist, and
    /// terminates otherwise.  Fetching leaves the state unchanged until
    /// `feed_page` supplies the page.
    pub fn next_step(&mut self) -> (step: ListStep)
        requires
            old(self).wf(),
        ensures
            final(self).wf(),
            (match step {
                ListStep::Entry(e) => {
                    &&& old(self)@.cursor < old(self)@.page.len()
                    &&& e@ == old(self)@.page[old(self)@.cursor]
                    &&& final(self)@ == (ListStateView {
                        cursor: old(self)@.cursor + 1,
                        yielded: old(self)@.yielded.push(e@),
                        ..old(self)@
                    })
                },
                ListStep::Fetch(t) => {
                    &&& old(self)@.cursor == old(self)@.page.len()
                    &&& !old(self)@.exhausted
                    &&& t@ == old(self)@.token
                    &&& final(self)@ == old(self)@
                },
                ListStep::Done => {
                    &&& old(self)@.cursor == old(self)@.page.len()
                    &&& old(self)@.exhausted
                    &&& final(self)@ == old(self)@
                },
            }),
    {
        if self.cursor < self.page.len() {
            let e = self.page[self.cursor].clone();
            self.cursor = self.cursor + 1;
            proof {
                self.yielded@ = self.yielded@.push(e@);
                assert(self@ =~= (ListStateView {
                    cursor: old(self)@.cursor + 1,
                    yielded: old(self)@.yielded.push(e@),
                    ..old(self)@
                }));
            }
            ListStep::Entry(e)
        } else if !self.exhausted {
            ListStep::Fetch(self.token.clone())
        } else {
            ListStep::Done
        }
    }

    /// Installs the next page and its continuation token; an empty token
    /// means this page is the last.
    pub fn feed_page(&mut self, entries: Vec<String>, next_token: &str)
        ensures
            final(self).wf(),
            final(self)@ == (ListStateView {
                page: entries.deep_view(),
                cursor: 0,
                token: next_token@,
                exhausted: next_token@.len() == 0,
                ..old(self)@
            }),
    {
        let exhausted = next_token.unicode_len() == 0;
        self.page = entries;
        self.cursor = 0;
        self.token = next_token.to_owned();
        self.exhausted = exhausted;
        proof {
            assert(self@ =~= (ListStateView {
                page: self.page.deep_view(),
                cursor: 0,
                token: next_token@,
                exhausted: next_token@.len() == 0,
                ..old(self)@
            }));
        }
    }

    /// Ends the stream: an error while refilling is terminal, and entries
    /// already yielded are not retracted.
    pub fn terminate(&mut self)
        ensures
            final(self).wf(),
            final(self)@ == (ListStateView {
                page: Seq::empty(),
                cursor: 0,
                exhausted: true,
                ..old(self)@
            }),
    {
        self.page = Vec::new();
        self.cursor = 0;
        self.exhausted = true;
        proof {
            assert(self@ =~= (ListStateView {
                page: Seq::empty(),
                cursor: 0,
                exhausted: true,
                ..old(self)@
            }));
        }
    }
}

} // verus!
