//! The process resolver: turn the lines of a process listing and a search
//! term into exactly one target process id.
//!
//! A listing line has the shape `<pid><whitespace><command...>`. Every
//! line's pid token is parsed, and one that does not parse is fatal for the
//! whole resolution, never skipped. A line whose command text contains the
//! search term as a substring is a candidate, except for the caller's own
//! process id. Zero candidates fail, one candidate resolves directly, and
//! two or more are handed back for an interactive choice.

use vstd::prelude::*;
use vstd::string::*;

use crate::digits::{
    all_digits, dec_digits, dec_val, is_digit, lemma_dec_digits_round_trip, parse_u64,
    parses_to_u64, u64_to_string,
};
use crate::text::{
    contains_str, first_space, is_space, spec_contains, spec_trim, split_fields, trim_left,
    trim_right, trim_ws,
};

verus! {

/// A process that matched the search: its id and its command line.
#[derive(Debug, PartialEq, Eq)]
pub struct Candidate {
    pub pid: u64,
    pub cmd: String,
}

impl View for Candidate {
    type V = (u64, Seq<char>);

    open spec fn view(&self) -> (u64, Seq<char>) {
        (self.pid, self.cmd@)
    }
}

/// The candidates as a sequence of (pid, command) pairs.
pub open spec fn cands_view(cs: Seq<Candidate>) -> Seq<(u64, Seq<char>)> {
    cs.map_values(|c: Candidate| c@)
}

/// Why no single process id could be determined.
#[derive(Debug, PartialEq, Eq)]
pub enum ResolveError {
    /// No line of the listing matched the search term.
    NoMatches,
    /// The selection typed at the prompt was out of range; holds the value.
    InvalidChoice(u64),
    /// A pid token or the typed selection was not an unsigned integer;
    /// holds the offending text.
    ParseFailure(String),
    /// The external process listing itself could not be obtained;
    /// holds a description.
    ListingFailure(String),
}

/// The pid token of a listing line: the part of the trimmed line before its
/// first whitespace character, empty if the line has no whitespace.
pub open spec fn line_head(l: Seq<char>) -> Seq<char> {
    let t = spec_trim(l);
    let i = first_space(t);
    if i < 0 {
        Seq::empty()
    } else {
        t.take(i)
    }
}

/// The command text of a listing line: the part of the trimmed line after
/// its first whitespace character, empty if the line has no whitespace.
pub open spec fn line_tail(l: Seq<char>) -> Seq<char> {
    let t = spec_trim(l);
    let i = first_space(t);
    if i < 0 {
        Seq::empty()
    } else {
        t.skip(i + 1)
    }
}

/// Scan the listing lines in order. Every line's pid token must parse:
/// `Err` holds the pid token of the first line that does not parse as a
/// `u64`, whether or not that line's command matches — such a line is fatal,
/// never skipped. `Ok` holds the candidates: the (pid, command) of every
/// line whose command contains `search` and whose pid is not `own_pid`, in
/// listing order.
pub open spec fn scan_lines(lines: Seq<Seq<char>>, search: Seq<char>, own_pid: u64) -> Result<
    Seq<(u64, Seq<char>)>,
    Seq<char>,
>
    decreases lines.len(),
{
    if lines.len() == 0 {
        Ok(Seq::empty())
    } else {
        let head = line_head(lines[0]);
        let tail = line_tail(lines[0]);
        if !parses_to_u64(head) {
            Err(head)
        } else {
            let rest = scan_lines(lines.drop_first(), search, own_pid);
            if spec_contains(tail, search) && dec_val(head) != own_pid {
                match rest {
                    Ok(cs) => Ok(seq![((dec_val(head) as u64), tail)] + cs),
                    Err(e) => Err(e),
                }
            } else {
                rest
            }
        }
    }
}

/// How the scan of a listing grows when one line is appended at its end.
proof fn lemma_scan_snoc(pre: Seq<Seq<char>>, l: Seq<char>, search: Seq<char>, own_pid: u64)
    ensures
        ({
            let whole = scan_lines(pre.push(l), search, own_pid);
            let sp = scan_lines(pre, search, own_pid);
            let head = line_head(l);
            let tail = line_tail(l);
            &&& sp is Err ==> whole == sp
            &&& sp is Ok && !parses_to_u64(head) ==> whole == Err::<Seq<(u64, Seq<char>)>, _>(head)
            &&& sp is Ok && parses_to_u64(head) && spec_contains(tail, search) && dec_val(head)
                != own_pid ==> whole == Ok::<_, Seq<char>>(
                sp->Ok_0.push(((dec_val(head) as u64), tail)),
            )
            &&& sp is Ok && parses_to_u64(head) && !(spec_contains(tail, search) && dec_val(head)
                != own_pid) ==> whole == sp
        }),
    decreases pre.len(),
{
    let whole = scan_lines(pre.push(l), search, own_pid);
    let sp = scan_lines(pre, search, own_pid);
    let head = line_head(l);
    let tail = line_tail(l);
    if pre.len() == 0 {
        assert(pre.push(l)[0] == l);
        assert(pre.push(l).drop_first() =~= Seq::<Seq<char>>::empty());
        assert(scan_lines(Seq::<Seq<char>>::empty(), search, own_pid) == Ok::<_, Seq<char>>(
            Seq::<(u64, Seq<char>)>::empty(),
        ));
        if parses_to_u64(head) && spec_contains(tail, search) && dec_val(head) != own_pid {
            assert(seq![((dec_val(head) as u64), tail)] + Seq::<(u64, Seq<char>)>::empty()
                =~= Seq::<(u64, Seq<char>)>::empty().push(((dec_val(head) as u64), tail)));
        }
    } else {
        assert(pre.push(l)[0] == pre[0]);
        assert(pre.push(l).drop_first() =~= pre.drop_first().push(l));
        lemma_scan_snoc(pre.drop_first(), l, search, own_pid);
        let head0 = line_head(pre[0]);
        let tail0 = line_tail(pre[0]);
        let restp = scan_lines(pre.drop_first(), search, own_pid);
        if parses_to_u64(head0) && spec_contains(tail0, search) && dec_val(head0) != own_pid
            && restp is Ok && sp is Ok {
            if parses_to_u64(head) && spec_contains(tail, search) && dec_val(head) != own_pid {
                assert(seq![((dec_val(head0) as u64), tail0)] + restp->Ok_0.push(
                    ((dec_val(head) as u64), tail),
                ) =~= (seq![((dec_val(head0) as u64), tail0)] + restp->Ok_0).push(
                    ((dec_val(head) as u64), tail),
                ));
            }
        }
    }
}

/// A scan that has already failed stays failed when more lines follow.
proof fn lemma_scan_err_extends(pre: Seq<Seq<char>>, rest: Seq<Seq<char>>, search: Seq<char>, own_pid: u64)
    requires
        scan_lines(pre, search, own_pid) is Err,
    ensures
        scan_lines(pre + rest, search, own_pid) == scan_lines(pre, search, own_pid),
    decreases pre.len(),
{
    assert(pre.len() > 0);
    assert((pre + rest)[0] == pre[0]);
    assert((pre + rest).drop_first() =~= pre.drop_first() + rest);
    let head0 = line_head(pre[0]);
    if !parses_to_u64(head0) {
    } else {
        lemma_scan_err_extends(pre.drop_first(), rest, search, own_pid);
    }
}

/// Collect the candidates of a listing, in listing order.
///
/// Returns the candidates exactly as [`scan_lines`] describes them, or
/// [`ResolveError::ParseFailure`] holding the pid token of the first line
/// that does not parse — every line's pid token is parsed, matching or not,
/// and a malformed one is fatal for the whole resolution.
pub fn build_candidates(lines: &Vec<String>, search: &str, own_pid: u64) -> (r: Result<
    Vec<Candidate>,
    ResolveError,
>)
    ensures
        ({
            let sc = scan_lines(lines.deep_view(), search@, own_pid);
            &&& sc is Ok ==> r is Ok && cands_view(r->Ok_0@) == sc->Ok_0
            &&& sc is Err ==> (r matches Err(ResolveError::ParseFailure(s)) && s@ == sc->Err_0)
        }),
{
    let ghost ls = lines.deep_view();
    let mut cands: Vec<Candidate> = Vec::new();
    let mut i: usize = 0;
    proof {
        assert(ls.take(0) =~= Seq::<Seq<char>>::empty());
        assert(cands_view(cands@) =~= Seq::<(u64, Seq<char>)>::empty());
    }
    while i < lines.len()
        invariant
            ls == lines.deep_view(),
            ls.len() == lines@.len(),
            0 <= i <= lines@.len(),
            scan_lines(ls.take(i as int), search@, own_pid) == Ok::<_, Seq<char>>(
                cands_view(cands@),
            ),
        decreases lines@.len() - i,
    {
        let line: &String = &lines[i];
        proof {
            assert(ls[i as int] == lines@[i as int]@);
            assert(ls.take(i as int + 1) =~= ls.take(i as int).push(ls[i as int]));
            lemma_scan_snoc(ls.take(i as int), ls[i as int], search@, own_pid);
        }
        let (head, tail) = split_fields(line.as_str());
        proof {
            assert(head@ == line_head(ls[i as int]));
            assert(tail@ == line_tail(ls[i as int]));
        }
        match parse_u64(head) {
            None => {
                proof {
                    assert(ls.take(i as int + 1) + ls.skip(i as int + 1) =~= ls);
                    lemma_scan_err_extends(
                        ls.take(i as int + 1),
                        ls.skip(i as int + 1),
                        search@,
                        own_pid,
                    );
                }
                return Err(ResolveError::ParseFailure(head.to_owned()));
            },
            Some(pid) => {
                if contains_str(tail, search) && pid != own_pid {
                    let c = Candidate { pid, cmd: tail.to_owned() };
                    proof {
                        assert(cands_view(cands@.push(c)) =~= cands_view(cands@).push(c@));
                    }
                    cands.push(c);
                }
            },
        }
        i = i + 1;
    }
    proof {
        assert(ls.take(lines@.len() as int) =~= ls);
    }
    Ok(cands)
}

/// The outcome of a resolution that needed no interaction, or the candidate
/// list to disambiguate.
#[derive(Debug, PartialEq, Eq)]
pub enum Resolution {
    /// Exactly one candidate matched: its process id.
    Target(u64),
    /// Two or more candidates matched; a choice is needed.
    Ambiguous(Vec<Candidate>),
}

/// Resolve a search term against the lines of a process listing.
///
/// Zero candidates fail with [`ResolveError::NoMatches`]; one candidate is
/// returned directly; two or more are handed back as
/// [`Resolution::Ambiguous`] in listing order, to be shown and chosen from.
/// The caller's own process id is never a candidate.
pub fn resolve(lines: &Vec<String>, search: &str, own_pid: u64) -> (r: Result<
    Resolution,
    ResolveError,
>)
    ensures
        ({
            let sc = scan_lines(lines.deep_view(), search@, own_pid);
            &&& sc is Err ==> (r matches Err(ResolveError::ParseFailure(s)) && s@ == sc->Err_0)
            &&& sc is Ok && sc->Ok_0.len() == 0 ==> r == Err::<Resolution, _>(
                ResolveError::NoMatches,
            )
            &&& sc is Ok && sc->Ok_0.len() == 1 ==> r == Ok::<_, ResolveError>(
                Resolution::Target(sc->Ok_0[0].0),
            )
            &&& sc is Ok && sc->Ok_0.len() >= 2 ==> (r matches Ok(Resolution::Ambiguous(v))
                && cands_view(v@) == sc->Ok_0)
        }),
{
    let cands = match build_candidates(lines, search, own_pid) {
        Err(e) => {
            return Err(e);
        },
        Ok(cands) => cands,
    };
    if cands.len() == 0 {
        Err(ResolveError::NoMatches)
    } else if cands.len() == 1 {
        proof {
            assert(cands_view(cands@)[0] == cands@[0]@);
        }
        Ok(Resolution::Target(cands[0].pid))
    } else {
        Ok(Resolution::Ambiguous(cands))
    }
}

/// The digits of a trimmed prompt reply: one optional leading plus sign is
/// accepted before the number.
pub open spec fn reply_digits(t: Seq<char>) -> Seq<char> {
    if t.len() > 0 && t[0] == '+' {
        t.drop_first()
    } else {
        t
    }
}

/// Interpret the one line typed at the disambiguation prompt.
///
/// The reply is trimmed and read as an unsigned integer, with one optional
/// leading `+` accepted; a reply that is not such a number fails with
/// [`ResolveError::ParseFailure`], an index at or beyond the number of
/// candidates fails with [`ResolveError::InvalidChoice`] holding that index,
/// and otherwise the chosen candidate's pid is returned.
pub fn choose_candidate(cands: &Vec<Candidate>, reply: &str) -> (r: Result<u64, ResolveError>)
    ensures
        ({
            let t = reply_digits(spec_trim(reply@));
            &&& !parses_to_u64(t) ==> (r matches Err(ResolveError::ParseFailure(s)) && s@ == reply@)
            &&& parses_to_u64(t) && dec_val(t) >= cands@.len() ==> r == Err::<u64, _>(
                ResolveError::InvalidChoice(dec_val(t) as u64),
            )
            &&& parses_to_u64(t) && dec_val(t) < cands@.len() ==> r == Ok::<_, ResolveError>(
                cands@[dec_val(t) as int].pid,
            )
        }),
{
    let trimmed = trim_ws(reply);
    let len = trimmed.unicode_len();
    let t = if len > 0 && trimmed.get_char(0) == '+' {
        let rest = trimmed.substring_char(1, len);
        proof {
            assert(rest@ =~= spec_trim(reply@).drop_first());
        }
        rest
    } else {
        trimmed
    };
    match parse_u64(t) {
        None => Err(ResolveError::ParseFailure(reply.to_owned())),
        Some(n) => {
            if n >= cands.len() as u64 {
                Err(ResolveError::InvalidChoice(n))
            } else {
                Ok(cands[n as usize].pid)
            }
        },
    }
}

/// The text of one line of the disambiguation listing:
/// `<index>: (<pid>) <command>`.
pub open spec fn listing_line_text(index: nat, c: (u64, Seq<char>)) -> Seq<char> {
    dec_digits(index) + ": ("@ + dec_digits(c.0 as nat) + ") "@ + c.1
}

/// Render one line of the disambiguation listing.
pub fn listing_line(index: u64, c: &Candidate) -> (r: String)
    ensures
        r@ == listing_line_text(index as nat, c@),
{
    let s = u64_to_string(index);
    let s = s.concat(": (");
    let s = s.concat(u64_to_string(c.pid).as_str());
    let s = s.concat(") ");
    let s = s.concat(c.cmd.as_str());
    s
}

/// Render the disambiguation listing: one line per candidate, indexed from
/// zero in listing order.
pub fn render_listing(cands: &Vec<Candidate>) -> (r: Vec<String>)
    ensures
        r@.len() == cands@.len(),
        forall|i: int|
            0 <= i < cands@.len() ==> r@[i]@ == listing_line_text(i as nat, cands@[i]@),
{
    let mut out: Vec<String> = Vec::new();
    let mut i: usize = 0;
    while i < cands.len()
        invariant
            0 <= i <= cands@.len(),
            out@.len() == i,
            forall|k: int| 0 <= k < i ==> out@[k]@ == listing_line_text(k as nat, cands@[k]@),
        decreases cands@.len() - i,
    {
        out.push(listing_line(i as u64, &cands[i]));
        i = i + 1;
    }
    out
}

/// The human-readable description of a resolution error.
pub open spec fn resolve_error_text(e: ResolveError) -> Seq<char> {
    match e {
        ResolveError::NoMatches => "There were no matches for search"@,
        ResolveError::InvalidChoice(n) => "Invalid choice: "@ + dec_digits(n as nat),
        ResolveError::ParseFailure(s) => "Could not parse number: "@ + s@,
        ResolveError::ListingFailure(s) => "Error listing processes: "@ + s@,
    }
}

impl ResolveError {
    /// Render this error for the caller.
    pub fn message(&self) -> (r: String)
        ensures
            r@ == resolve_error_text(*self),
    {
        match self {
            ResolveError::NoMatches => String::from_str("There were no matches for search"),
            ResolveError::InvalidChoice(n) => String::from_str("Invalid choice: ").concat(
                u64_to_string(*n).as_str(),
            ),
            ResolveError::ParseFailure(s) => String::from_str("Could not parse number: ").concat(
                s.as_str(),
            ),
            ResolveError::ListingFailure(s) => String::from_str(
                "Error listing processes: ",
            ).concat(s.as_str()),
        }
    }
}

/// Trimming a string with no whitespace in it changes nothing.
proof fn lemma_trim_no_space(s: Seq<char>)
    requires
        forall|i: int| 0 <= i < s.len() ==> !is_space(s[i]),
    ensures
        spec_trim(s) == s,
{
    assert(trim_left(s) == s);
    assert(trim_right(s) == s);
}

/// A printed candidate index, typed back in unchanged, is accepted by the
/// selection parser and names the value it was printed from.
///
/// [`render_listing`] prints index `n` as `dec_digits(n)`;
/// [`choose_candidate`] trims the reply, strips an optional leading plus
/// sign, and reads the rest as a number. This law says that round trip is
/// the identity: the trim and the stripping change nothing, the text parses,
/// and it parses back to `n` — so a reply equal to a printed index below the
/// candidate count always selects the candidate it was printed beside.
pub proof fn lemma_printed_index_selects(n: u64)
    ensures
        spec_trim(dec_digits(n as nat)) == dec_digits(n as nat),
        reply_digits(dec_digits(n as nat)) == dec_digits(n as nat),
        parses_to_u64(dec_digits(n as nat)),
        dec_val(dec_digits(n as nat)) == n,
{
    lemma_dec_digits_round_trip(n as nat);
    let d = dec_digits(n as nat);
    assert forall|i: int| 0 <= i < d.len() implies !is_space(d[i]) by {
        assert(is_digit(d[i]));
        assert(' ' as u32 == 32 && '\t' as u32 == 9 && '\r' as u32 == 13 && '\n' as u32 == 10);
    }
    lemma_trim_no_space(d);
    assert(is_digit(d[0]) && '+' as u32 == 43);
}

/// A scan fails exactly when some line's pid token does not parse as a
/// `u64`, whether or not that line's command matches the search term.
///
/// Together with the contract of [`resolve`] this says when a resolution is
/// owed an answer: on a listing where every line is well formed, `resolve`
/// never reports a parse failure.
pub proof fn lemma_scan_err_characterized(lines: Seq<Seq<char>>, search: Seq<char>, own_pid: u64)
    ensures
        scan_lines(lines, search, own_pid) is Err <==> exists|i: int|
            0 <= i < lines.len() && !parses_to_u64(line_head(#[trigger] lines[i])),
    decreases lines.len(),
{
    if lines.len() > 0 {
        lemma_scan_err_characterized(lines.drop_first(), search, own_pid);
        let head = line_head(lines[0]);
        if !parses_to_u64(head) {
            assert(!parses_to_u64(line_head(lines[0])));
        } else {
            if scan_lines(lines, search, own_pid) is Err {
                let j = choose|j: int|
                    0 <= j < lines.drop_first().len() && !parses_to_u64(
                        line_head(#[trigger] lines.drop_first()[j]),
                    );
                assert(lines.drop_first()[j] == lines[j + 1]);
                assert(!parses_to_u64(line_head(lines[j + 1])));
            }
            if exists|i: int| 0 <= i < lines.len() && !parses_to_u64(
                line_head(#[trigger] lines[i]),
            ) {
                let i = choose|i: int|
                    0 <= i < lines.len() && !parses_to_u64(line_head(#[trigger] lines[i]));
                assert(i != 0);
                assert(lines.drop_first()[i - 1] == lines[i]);
                assert(!parses_to_u64(line_head(lines.drop_first()[i - 1])));
            }
        }
    }
}

/// A successful scan yields no candidate exactly when every line whose
/// command text contains the search term is the caller's own process.
///
/// Together with the contract of [`resolve`] this says when
/// [`ResolveError::NoMatches`] is returned: precisely on listings where
/// nothing but (at most) the caller itself matches the search term.
pub proof fn lemma_no_matches_characterized(lines: Seq<Seq<char>>, search: Seq<char>, own_pid: u64)
    ensures
        ({
            let sc = scan_lines(lines, search, own_pid);
            sc is Ok ==> (sc->Ok_0.len() == 0 <==> forall|i: int|
                0 <= i < lines.len() ==> (spec_contains(line_tail(#[trigger] lines[i]), search)
                    ==> dec_val(line_head(lines[i])) == own_pid))
        }),
    decreases lines.len(),
{
    let sc = scan_lines(lines, search, own_pid);
    if lines.len() > 0 && sc is Ok {
        lemma_no_matches_characterized(lines.drop_first(), search, own_pid);
        let head = line_head(lines[0]);
        let tail = line_tail(lines[0]);
        let rest = scan_lines(lines.drop_first(), search, own_pid);
        assert(parses_to_u64(head));
        if spec_contains(tail, search) && dec_val(head) != own_pid {
            assert(sc->Ok_0.len() > 0);
            assert(spec_contains(line_tail(lines[0]), search) && dec_val(line_head(lines[0]))
                != own_pid);
        } else {
            assert(sc == rest);
            if sc->Ok_0.len() == 0 {
                assert forall|i: int|
                    0 <= i < lines.len() implies (spec_contains(
                    line_tail(#[trigger] lines[i]),
                    search,
                ) ==> dec_val(line_head(lines[i])) == own_pid) by {
                    if i > 0 {
                        assert(lines.drop_first()[i - 1] == lines[i]);
                        assert(spec_contains(line_tail(lines.drop_first()[i - 1]), search)
                            ==> dec_val(line_head(lines.drop_first()[i - 1])) == own_pid);
                    }
                }
            } else {
                assert(rest->Ok_0.len() > 0);
                let j = choose|j: int|
                    0 <= j < lines.drop_first().len() && !(spec_contains(
                        line_tail(#[trigger] lines.drop_first()[j]),
                        search,
                    ) ==> dec_val(line_head(lines.drop_first()[j])) == own_pid);
                assert(lines.drop_first()[j] == lines[j + 1]);
                assert(!(spec_contains(line_tail(lines[j + 1]), search) ==> dec_val(
                    line_head(lines[j + 1]),
                ) == own_pid));
            }
        }
    }
}

/// Every candidate of a successful scan has a pid other than the caller's
/// own and a command that contains the search term.
///
/// In particular, the caller's own process is never among the candidates,
/// however well its command line matches.
pub proof fn lemma_candidates_sound(lines: Seq<Seq<char>>, search: Seq<char>, own_pid: u64)
    ensures
        ({
            let sc = scan_lines(lines, search, own_pid);
            sc is Ok ==> forall|i: int|
                0 <= i < sc->Ok_0.len() ==> (#[trigger] sc->Ok_0[i]).0 != own_pid
                && spec_contains(sc->Ok_0[i].1, search)
        }),
    decreases lines.len(),
{
    if lines.len() > 0 {
        lemma_candidates_sound(lines.drop_first(), search, own_pid);
        let head = line_head(lines[0]);
        let tail = line_tail(lines[0]);
        let rest = scan_lines(lines.drop_first(), search, own_pid);
        let sc = scan_lines(lines, search, own_pid);
        if sc is Ok {
            let cs = sc->Ok_0;
            assert(parses_to_u64(head));
            let prepended = spec_contains(tail, search) && dec_val(head) != own_pid;
            assert forall|i: int|
                0 <= i < cs.len() implies (#[trigger] cs[i]).0 != own_pid && spec_contains(
                cs[i].1,
                search,
            ) by {
                if prepended {
                    if i == 0 {
                        assert(cs[0] == ((dec_val(head) as u64), tail));
                    } else {
                        assert(cs[i] == rest->Ok_0[i - 1]);
                        assert(rest->Ok_0[i - 1].0 != own_pid && spec_contains(
                            rest->Ok_0[i - 1].1,
                            search,
                        ));
                    }
                } else {
                    assert(cs[i] == rest->Ok_0[i]);
                    assert(rest->Ok_0[i].0 != own_pid && spec_contains(rest->Ok_0[i].1, search));
                }
            }
        }
    }
}

} // verus!
