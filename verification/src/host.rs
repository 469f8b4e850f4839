//! Which subdomain a request asks for: the label in front of the first dot of
//! its `Host` header.
use crate::text;
use vstd::prelude::*;
use vstd::utf8::*;

verus! {

/// Why no subdomain was found.
#[derive(Debug, Clone, Copy, PartialEq, Eq, Structural)]
pub enum SubdomainError {
    /// Nothing stands in front of the first dot of the host.
    NoSubdomain,
}

impl SubdomainError {
    /// The error in words.
    pub fn message(&self) -> (r: String)
        ensures
            r@ == "no subdomain exists"@,
    {
        "no subdomain exists".to_owned()
    }
}

/// The label in front of the first dot of a host in lowercase, which may carry
/// the name of its header; `None` if nothing stands there.
pub open spec fn label_of(host: Seq<char>) -> Option<Seq<char>> {
    let label = text::before(text::trim(text::remove_first(host, "host:"@)), '.');
    if label.len() == 0 {
        None
    } else {
        Some(label)
    }
}

/// The subdomain that a host names.
pub open spec fn subdomain_of(host: Seq<char>) -> Option<Seq<char>> {
    label_of(text::lowercase(host))
}

/// The characters of `host:`.
fn host_prefix() -> (r: Vec<char>)
    ensures
        r@ == "host:"@,
{
    text::chars_of("host:")
}

/// Finds the subdomain in a host, which may be a whole `Host` header: its
/// lowercase form without the first `host:` and without the white space around
/// it, up to the first dot. No letter from `A` to `Z` stands in it.
pub fn extract_subdomain(host: &str) -> (r: Result<String, SubdomainError>)
    ensures
        match r {
            Ok(label) => subdomain_of(host@) == Some(label@) && text::no_capitals(label@),
            Err(e) => e == SubdomainError::NoSubdomain && subdomain_of(host@) is None,
        },
{
    let lowered: String = text::to_lowercase(host);
    proof {
        lemma_label_without_capitals(lowered@);
    }
    let host: Vec<char> = text::without_first(&text::chars_of(lowered.as_str()), &host_prefix());
    let (from, to): (usize, usize) = text::trimmed(&host);
    let end: usize = text::position(&host, '.', from, to);
    if from < end {
        Ok(text::string_of(&host, from, end))
    } else {
        Err(SubdomainError::NoSubdomain)
    }
}

/// A line without the carriage return at its end.
pub open spec fn without_return(line: Seq<char>) -> Seq<char> {
    if line.len() > 0 && line.last() == '\r' {
        line.drop_last()
    } else {
        line
    }
}

/// The lines of a text. A line ends with a line feed, or with a carriage return
/// and a line feed; the last line need not end.
pub open spec fn lines(text: Seq<char>) -> Seq<Seq<char>>
    decreases text.len(),
{
    let line = text::before(text, '\n');
    if text.len() == 0 {
        Seq::empty()
    } else if line.len() >= text.len() {
        seq![text]
    } else {
        seq![without_return(line)] + lines(text.skip(line.len() as int + 1))
    }
}

/// Whether a line is a `Host` header.
pub open spec fn names_host(line: Seq<char>) -> bool {
    "host:"@.is_prefix_of(text::lowercase(line))
}

/// The first `Host` header among lines.
pub open spec fn first_host(lines: Seq<Seq<char>>) -> Option<Seq<char>>
    decreases lines.len(),
{
    if lines.len() == 0 {
        None
    } else if names_host(lines.first()) {
        Some(lines.first())
    } else {
        first_host(lines.drop_first())
    }
}

/// The `Host` header of a request.
pub open spec fn host_line(request: Seq<char>) -> Option<Seq<char>> {
    first_host(lines(request))
}

/// Whether a line is a `Host` header.
fn is_host_line(line: &str) -> (r: bool)
    ensures
        r == names_host(line@),
{
    let lowered: String = text::to_lowercase(line);
    let chars: Vec<char> = text::chars_of(lowered.as_str());
    assert(chars@.skip(0) =~= chars@);
    text::matches_at(&chars, &host_prefix(), 0)
}

/// Finds the `Host` header of a request, if it has one.
pub fn find_host_line(request: &str) -> (r: Option<String>)
    ensures
        match r {
            Some(line) => host_line(request@) == Some(line@),
            None => host_line(request@) is None,
        },
{
    let chars: Vec<char> = text::chars_of(request);
    let n: usize = chars.len();
    let mut start: usize = 0;
    assert(chars@.skip(0) =~= chars@);
    while start < n
        invariant
            n == chars@.len(),
            start <= n,
            chars@ == request@,
            host_line(request@) == first_host(lines(chars@.skip(start as int))),
        decreases n - start,
    {
        let stop: usize = text::position(&chars, '\n', start, n);
        let ends: bool = stop < n;
        let end: usize = if ends && start < stop && chars[stop - 1] == '\r' {
            stop - 1
        } else {
            stop
        };
        let line: String = text::string_of(&chars, start, end);
        let ghost rest = chars@.skip(start as int);
        proof {
            assert(rest =~= chars@.subrange(start as int, n as int));
            let raw = text::before(rest, '\n');
            assert(raw.len() == stop - start);
            if ends {
                assert(line@ =~= without_return(raw));
                assert(rest.skip(raw.len() as int + 1) =~= chars@.skip(stop + 1));
                assert(lines(rest) == seq![line@] + lines(chars@.skip(stop + 1)));
                assert(lines(rest).drop_first() =~= lines(chars@.skip(stop + 1)));
            } else {
                assert(line@ =~= rest);
                assert(lines(rest).drop_first() =~= Seq::empty());
                assert(lines(chars@.skip(n as int)) =~= Seq::empty());
            }
            assert(lines(rest).first() == line@);
        }
        if is_host_line(line.as_str()) {
            return Some(line);
        }
        start = if ends {
            stop + 1
        } else {
            n
        };
    }
    None
}

/// What a request says about its host.
pub enum RequestedHost {
    /// There is no `Host` header: the bytes are not a visitor's request.
    Missing,
    /// There is a `Host` header without a subdomain.
    NoSubdomain,
    /// The subdomain that the `Host` header names.
    Subdomain(String),
}

/// What the first bytes of a connection say about the host: the outer `None` if
/// they hold no `Host` header, the inner `None` if that names no subdomain.
pub open spec fn requested_host(request: Seq<u8>) -> Option<Option<Seq<char>>> {
    match host_line(text::text_of(request)) {
        Some(line) => Some(subdomain_of(line)),
        None => None,
    }
}

impl RequestedHost {
    /// What is found, as `requested_host` says it.
    pub open spec fn found(&self) -> Option<Option<Seq<char>>> {
        match *self {
            RequestedHost::Missing => None,
            RequestedHost::NoSubdomain => Some(None),
            RequestedHost::Subdomain(label) => Some(Some(label@)),
        }
    }
}

/// Looks for the host in the first bytes of a connection.
pub fn read_host(request: &[u8]) -> (r: RequestedHost)
    ensures
        r.found() == requested_host(request@),
        r.found() matches Some(Some(label)) ==> text::no_capitals(label),
{
    let text: String = text::from_utf8_lossy(request);
    match find_host_line(text.as_str()) {
        Some(line) => match extract_subdomain(line.as_str()) {
            Ok(label) => RequestedHost::Subdomain(label),
            Err(_) => RequestedHost::NoSubdomain,
        },
        None => RequestedHost::Missing,
    }
}

/// Trimming the start removes white space in front.
proof fn lemma_trim_start(gap: Seq<char>, rest: Seq<char>)
    requires
        forall|i: int| 0 <= i < gap.len() ==> text::white_space(#[trigger] gap[i]),
        rest.len() > 0,
        !text::white_space(rest[0]),
    ensures
        text::trim_start(gap + rest) == rest,
    decreases gap.len(),
{
    if gap.len() == 0 {
        assert(gap + rest =~= rest);
    } else {
        assert(text::white_space(gap[0]));
        assert((gap + rest).drop_first() =~= gap.drop_first() + rest);
        assert forall|i: int| 0 <= i < gap.drop_first().len() implies text::white_space(
            #[trigger] gap.drop_first()[i],
        ) by {
            assert(gap.drop_first()[i] == gap[i + 1]);
        }
        lemma_trim_start(gap.drop_first(), rest);
    }
}

/// Trimming the end keeps all up to a character that is no white space.
proof fn lemma_trim_end(s: Seq<char>, keep: int)
    requires
        0 < keep <= s.len(),
        !text::white_space(s[keep - 1]),
    ensures
        text::trim_end(s).is_prefix_of(s),
        text::trim_end(s).len() >= keep,
    decreases s.len(),
{
    if text::white_space(s.last()) {
        lemma_trim_end(s.drop_last(), keep);
        let t = text::trim_end(s);
        assert(t == s.drop_last().subrange(0, t.len() as int));
        assert(t =~= s.subrange(0, t.len() as int));
    } else {
        assert(s =~= s.subrange(0, s.len() as int));
    }
}

/// To lowercase two texts joined is to join their lowercase forms.
proof fn lemma_ascii_lowercase_concat(a: Seq<char>, b: Seq<char>)
    ensures
        text::ascii_lowercase(a + b) == text::ascii_lowercase(a) + text::ascii_lowercase(b),
{
    assert(text::ascii_lowercase(a + b) =~= text::ascii_lowercase(a) + text::ascii_lowercase(b));
}

/// A visitor reaches the label they ask for: a `Host` header, however its name
/// and its label are capitalised, with any white space of ASCII between them and
/// with any characters behind its first dot, names what stands in front of that dot.
/// Without a dot it names all there is, up to white space at the end.
pub proof fn law_header_names_label(
    field: Seq<char>,
    gap: Seq<char>,
    spelled: Seq<char>,
    label: Seq<char>,
    rest: Seq<char>,
)
    requires
        is_ascii_chars(field),
        text::ascii_lowercase(field) == "host:"@,
        is_ascii_chars(gap),
        forall|i: int| 0 <= i < gap.len() ==> text::white_space(#[trigger] gap[i]),
        is_ascii_chars(spelled),
        text::ascii_lowercase(spelled) == label,
        label.len() > 0,
        !label.contains('.'),
        !text::white_space(label[0]),
        rest.len() == 0 ==> !text::white_space(label.last()),
        rest.len() == 0 || rest[0] == '.',
    ensures
        names_host(field + gap + spelled + rest),
        subdomain_of(field + gap + spelled + rest) == Some(label),
{
    let line = field + gap + spelled + rest;
    let dot = if rest.len() == 0 {
        Seq::empty()
    } else {
        seq!['.']
    };
    let front = field + gap + spelled + dot;
    let behind = rest.skip(dot.len() as int);
    assert(line =~= front + behind);
    assert(is_ascii_chars(front)) by {
        assert forall|i: int| 0 <= i < front.len() implies '\0' <= #[trigger] front[i]
            <= '\u{7f}' by {
            let (f, g, p) = (field.len(), gap.len(), spelled.len());
            if i < f {
                assert(front[i] == field[i]);
            } else if i < f + g {
                assert(front[i] == gap[i - f]);
            } else if i < f + g + p {
                assert(front[i] == spelled[i - f - g]);
            } else {
                assert(front[i] == dot[i - f - g - p]);
            }
        }
    }
    lemma_ascii_lowercase_concat(field + gap + spelled, dot);
    lemma_ascii_lowercase_concat(field + gap, spelled);
    lemma_ascii_lowercase_concat(field, gap);
    assert(text::ascii_lowercase(gap) =~= gap);
    assert(text::ascii_lowercase(dot) =~= dot);
    let lowered = text::lowercase(line);
    text::lemma_lowercase_front(front, behind);
    let start = text::ascii_lowercase(front);
    assert(start == lowered.subrange(0, start.len() as int));
    assert(start =~= "host:"@ + (gap + label + dot));
    if rest.len() == 0 {
        assert(line =~= front);
        assert(lowered == start);
    }
    let tail = dot + lowered.skip(start.len() as int);
    let named = label + tail;
    assert(lowered =~= start + lowered.skip(start.len() as int));
    assert(lowered =~= "host:"@ + (gap + named));
    assert(lowered.subrange(0, "host:"@.len() as int) =~= "host:"@);
    let value = text::remove_first(lowered, "host:"@);
    assert(value =~= gap + named);
    assert(named[0] == label[0]);
    lemma_trim_start(gap, named);
    let n = label.len() as int;
    assert(named[n - 1] == label[n - 1]);
    if rest.len() > 0 {
        assert(named[n] == '.');
        lemma_trim_end(named, n + 1);
    } else {
        lemma_trim_end(named, n);
    }
    let trimmed = text::trim_end(named);
    assert(trimmed == named.subrange(0, trimmed.len() as int));
    assert forall|j: int| 0 <= j < n implies trimmed[j] != '.' by {
        assert(label.contains(label[j]));
        assert(trimmed[j] == label[j]);
    }
    text::lemma_before(trimmed, '.', n);
    assert(trimmed.take(n) =~= label);
}

/// Capital letters make no difference to the subdomain of a host in ASCII.
pub proof fn law_capitals_do_not_matter(host: Seq<char>)
    requires
        is_ascii_chars(host),
    ensures
        subdomain_of(text::ascii_lowercase(host)) == subdomain_of(host),
{
    let lowered = text::ascii_lowercase(host);
    assert(is_ascii_chars(lowered)) by {
        assert forall|i: int| 0 <= i < lowered.len() implies '\0' <= #[trigger] lowered[i]
            <= '\u{7f}' by {
            assert(lowered[i] == text::ascii_lower(host[i]));
        }
    }
    assert(text::ascii_lowercase(lowered) =~= lowered);
}

/// A subdomain is never empty, holds no dot and does not start with white space. No
/// letter from `A` to `Z` stands in that of a host in ASCII.
pub proof fn law_subdomain_is_one_label(host: Seq<char>)
    ensures
        subdomain_of(host) matches Some(label) ==> label.len() > 0 && !label.contains('.')
            && !text::white_space(label[0]) && (is_ascii_chars(host) ==> text::no_capitals(label)),
{
    let lowered = text::lowercase(host);
    let value = text::remove_first(lowered, "host:"@);
    lemma_before_has_no_stop(text::trim(value), '.');
    lemma_trim_starts_with_text(value);
    if is_ascii_chars(host) {
        text::lemma_ascii_lowercase_has_no_capitals(host);
        lemma_label_without_capitals(lowered);
    }
}

proof fn lemma_trim_starts_with_text(s: Seq<char>)
    ensures
        text::trim(s).len() > 0 ==> !text::white_space(text::trim(s)[0]),
    decreases s.len(),
{
    if s.len() > 0 && text::white_space(s.first()) {
        lemma_trim_starts_with_text(s.drop_first());
    } else {
        lemma_trim_end_is_prefix(s);
    }
}

proof fn lemma_trim_end_is_prefix(s: Seq<char>)
    ensures
        text::trim_end(s).len() <= s.len(),
        forall|i: int| 0 <= i < text::trim_end(s).len() ==> #[trigger] text::trim_end(s)[i] == s[i],
    decreases s.len(),
{
    if s.len() > 0 && text::white_space(s.last()) {
        lemma_trim_end_is_prefix(s.drop_last());
    }
}

/// The label in front of the first dot has no capitals if the host has none.
proof fn lemma_label_without_capitals(host: Seq<char>)
    requires
        text::no_capitals(host),
    ensures
        label_of(host) matches Some(label) ==> text::no_capitals(label),
{
    let value = text::remove_first(host, "host:"@);
    lemma_remove_first_without_capitals(host, "host:"@);
    lemma_trim_start_without_capitals(value);
    lemma_trim_end_is_prefix(text::trim_start(value));
    lemma_before_without_capitals(text::trim(value), '.');
}

proof fn lemma_remove_first_without_capitals(s: Seq<char>, pattern: Seq<char>)
    requires
        text::no_capitals(s),
    ensures
        text::no_capitals(text::remove_first(s, pattern)),
    decreases s.len(),
{
    if !pattern.is_prefix_of(s) && s.len() > 0 {
        lemma_remove_first_without_capitals(s.skip(1), pattern);
    }
}

proof fn lemma_trim_start_without_capitals(s: Seq<char>)
    requires
        text::no_capitals(s),
    ensures
        text::no_capitals(text::trim_start(s)),
    decreases s.len(),
{
    if s.len() > 0 && text::white_space(s.first()) {
        lemma_trim_start_without_capitals(s.drop_first());
    }
}

proof fn lemma_before_without_capitals(s: Seq<char>, stop: char)
    requires
        text::no_capitals(s),
    ensures
        text::no_capitals(text::before(s, stop)),
    decreases s.len(),
{
    if s.len() > 0 && s.first() != stop {
        lemma_before_without_capitals(s.drop_first(), stop);
    }
}

/// The first five characters of a line tell whether it is a `Host` header, if they
/// are ASCII, whatever characters come behind them.
pub proof fn law_first_characters_tell_a_host(front: Seq<char>, rest: Seq<char>)
    requires
        is_ascii_chars(front),
        front.len() == 5,
    ensures
        names_host(front + rest) <==> text::ascii_lowercase(front) == "host:"@,
{
    reveal_strlit("host:");
    text::lemma_lowercase_front(front, rest);
    let lowered = text::lowercase(front + rest);
    assert(text::ascii_lowercase(front) == lowered.subrange(0, 5));
}

proof fn lemma_before_has_no_stop(s: Seq<char>, stop: char)
    ensures
        !text::before(s, stop).contains(stop),
    decreases s.len(),
{
    if s.len() > 0 && s.first() != stop {
        lemma_before_has_no_stop(s.drop_first(), stop);
        let rest = text::before(s.drop_first(), stop);
        let all = text::before(s, stop);
        assert forall|i: int| 0 <= i < all.len() implies all[i] != stop by {
            if i > 0 {
                assert(all[i] == rest[i - 1]);
            }
        }
    }
}

/// Lines, each with a carriage return and a line feed behind it.
pub open spec fn header_text(lines: Seq<Seq<char>>) -> Seq<char>
    decreases lines.len(),
{
    if lines.len() == 0 {
        Seq::empty()
    } else {
        lines.first() + seq!['\r', '\n'] + header_text(lines.drop_first())
    }
}

proof fn lemma_first_line(line: Seq<char>, rest: Seq<char>)
    requires
        !line.contains('\n'),
    ensures
        lines(line + seq!['\r', '\n'] + rest) == seq![line] + lines(rest),
{
    let whole = line + seq!['\r', '\n'] + rest;
    let n = line.len() as int + 1;
    assert forall|j: int| 0 <= j < n implies whole[j] != '\n' by {
        if j < line.len() {
            assert(whole[j] == line[j]);
        }
    }
    text::lemma_before(whole, '\n', n);
    assert(whole.take(n).drop_last() =~= line);
    assert(whole.skip(n + 1) =~= rest);
}

/// The relay finds the host that a request names: whatever header lines without
/// a host stand in front of it and whatever bytes come behind it, well-formed or
/// not, the first `Host` header decides.
pub proof fn law_first_host_header_decides(
    heads: Seq<Seq<char>>,
    line: Seq<char>,
    tail: Seq<u8>,
)
    requires
        forall|i: int|
            0 <= i < heads.len() ==> !(#[trigger] heads[i]).contains('\n') && !names_host(heads[i]),
        !line.contains('\n'),
        names_host(line),
    ensures
        requested_host(
            encode_utf8(header_text(heads) + line + seq!['\r', '\n']) + tail,
        ) == Some(subdomain_of(line)),
{
    let front = header_text(heads) + line + seq!['\r', '\n'];
    let request = text::text_of(encode_utf8(front) + tail);
    text::lemma_front_is_kept(front, tail);
    let rest = request.skip(front.len() as int);
    assert(request =~= front + rest);
    lemma_host_line(heads, line, rest);
}

proof fn lemma_host_line(heads: Seq<Seq<char>>, line: Seq<char>, rest: Seq<char>)
    requires
        forall|i: int|
            0 <= i < heads.len() ==> !(#[trigger] heads[i]).contains('\n') && !names_host(heads[i]),
        !line.contains('\n'),
        names_host(line),
    ensures
        host_line(header_text(heads) + line + seq!['\r', '\n'] + rest) == Some(line),
    decreases heads.len(),
{
    let request = header_text(heads) + line + seq!['\r', '\n'] + rest;
    if heads.len() == 0 {
        assert(request =~= line + seq!['\r', '\n'] + rest);
        lemma_first_line(line, rest);
        assert(lines(request).first() == line);
    } else {
        let less = heads.drop_first();
        assert forall|i: int| 0 <= i < less.len() implies !(#[trigger] less[i]).contains('\n')
            && !names_host(less[i]) by {
            assert(less[i] == heads[i + 1]);
        }
        lemma_host_line(less, line, rest);
        let shorter = header_text(less) + line + seq!['\r', '\n'] + rest;
        assert(request =~= heads.first() + seq!['\r', '\n'] + shorter);
        assert(heads.first() == heads[0]);
        lemma_first_line(heads.first(), shorter);
        assert(lines(request).first() == heads.first());
        assert(lines(request).drop_first() =~= lines(shorter));
    }
}

/// A message of a client is not taken for a request: one line that starts with a
/// character of ASCII other than the letter h names no host.
pub proof fn law_client_message_names_no_host(message: Seq<char>)
    requires
        !message.contains('\n'),
        message.len() > 0 ==> message[0] <= '\u{7f}' && message[0] != 'h' && message[0] != 'H',
    ensures
        requested_host(encode_utf8(message)) is None,
{
    encode_utf8_valid_utf8(message);
    encode_utf8_decode_utf8(message);
    if message.len() > 0 {
        let n = message.len() as int;
        assert forall|j: int| 0 <= j < n implies message[j] != '\n' by {
            assert(message.contains(message[j]));
        }
        text::lemma_before(message, '\n', n);
        assert(lines(message) =~= seq![message]);
        reveal_strlit("host:");
        let front = seq![message[0]];
        text::lemma_lowercase_front(front, message.skip(1));
        assert(front + message.skip(1) =~= message);
        let lowered = text::lowercase(message);
        assert(text::ascii_lowercase(front)[0] == lowered.subrange(0, 1)[0]);
        if names_host(message) {
            assert("host:"@[0] == lowered.subrange(0, 5)[0]);
        }
        assert(!names_host(lines(message).first()));
        assert(lines(message).drop_first() =~= Seq::empty());
        assert(first_host(lines(message).drop_first()) is None);
    }
}

/// A `Host` header in which nothing stands in front of the first dot, or nothing at
/// all, names no subdomain.
pub proof fn law_header_without_label_names_none(
    field: Seq<char>,
    gap: Seq<char>,
    rest: Seq<char>,
)
    requires
        is_ascii_chars(field),
        text::ascii_lowercase(field) == "host:"@,
        is_ascii_chars(gap),
        forall|i: int| 0 <= i < gap.len() ==> text::white_space(#[trigger] gap[i]),
        rest.len() == 0 || rest[0] == '.',
    ensures
        names_host(field + gap + rest),
        subdomain_of(field + gap + rest) is None,
{
    let line = field + gap + rest;
    let dot = if rest.len() == 0 {
        Seq::empty()
    } else {
        seq!['.']
    };
    let front = field + gap + dot;
    let behind = rest.skip(dot.len() as int);
    assert(line =~= front + behind);
    assert(is_ascii_chars(front)) by {
        assert forall|i: int| 0 <= i < front.len() implies '\0' <= #[trigger] front[i]
            <= '\u{7f}' by {
            let (f, g) = (field.len(), gap.len());
            if i < f {
                assert(front[i] == field[i]);
            } else if i < f + g {
                assert(front[i] == gap[i - f]);
            } else {
                assert(front[i] == dot[i - f - g]);
            }
        }
    }
    lemma_ascii_lowercase_concat(field + gap, dot);
    lemma_ascii_lowercase_concat(field, gap);
    assert(text::ascii_lowercase(gap) =~= gap);
    assert(text::ascii_lowercase(dot) =~= dot);
    let lowered = text::lowercase(line);
    text::lemma_lowercase_front(front, behind);
    let start = text::ascii_lowercase(front);
    assert(start == lowered.subrange(0, start.len() as int));
    assert(start =~= "host:"@ + (gap + dot));
    if rest.len() == 0 {
        assert(line =~= front);
        assert(lowered == start);
    }
    let named = dot + lowered.skip(start.len() as int);
    assert(lowered =~= start + lowered.skip(start.len() as int));
    assert(lowered =~= "host:"@ + (gap + named));
    assert(lowered.subrange(0, "host:"@.len() as int) =~= "host:"@);
    let value = text::remove_first(lowered, "host:"@);
    assert(value =~= gap + named);
    if rest.len() == 0 {
        assert(named =~= Seq::<char>::empty());
        assert(value =~= gap + Seq::<char>::empty() + Seq::<char>::empty());
        text::law_white_space_around_is_trimmed(gap, Seq::empty(), Seq::empty());
    } else {
        assert(named[0] == '.');
        lemma_trim_start(gap, named);
        lemma_trim_end(named, 1);
        assert(text::trim_end(named) == named.subrange(0, text::trim_end(named).len() as int));
        assert(text::trim(value)[0] == '.');
    }
}

/// A host without the name of a header names what stands in front of its first dot
/// as well, in lowercase and without white space in front.
pub proof fn law_bare_host_names_label(gap: Seq<char>, spelled: Seq<char>, rest: Seq<char>)
    requires
        is_ascii_chars(gap + spelled + rest),
        forall|i: int| 0 <= i < gap.len() ==> text::white_space(#[trigger] gap[i]),
        forall|j: int|
            0 <= j <= (gap + spelled + rest).len() ==> !"host:"@.is_prefix_of(
                #[trigger] text::ascii_lowercase(gap + spelled + rest).skip(j),
            ),
        spelled.len() > 0,
        !spelled.contains('.'),
        !text::white_space(spelled[0]),
        rest.len() == 0 ==> !text::white_space(spelled.last()),
        rest.len() == 0 || rest[0] == '.',
    ensures
        subdomain_of(gap + spelled + rest) == Some(text::ascii_lowercase(spelled)),
{
    let host = gap + spelled + rest;
    let lowered = text::lowercase(host);
    text::law_missing_pattern_removes_nothing(lowered, "host:"@);
    lemma_ascii_lowercase_concat(gap + spelled, rest);
    lemma_ascii_lowercase_concat(gap, spelled);
    assert(text::ascii_lowercase(gap) =~= gap) by {
        assert forall|i: int| 0 <= i < gap.len() implies text::ascii_lower(gap[i]) == gap[i] by {
            assert(text::white_space(gap[i]));
        }
    }
    let label = text::ascii_lowercase(spelled);
    let named = label + text::ascii_lowercase(rest);
    assert(lowered =~= gap + named);
    let n = label.len() as int;
    assert forall|j: int| 0 <= j < n implies label[j] != '.' by {
        assert(spelled.contains(spelled[j]));
        assert(label[j] == text::ascii_lower(spelled[j]));
    }
    assert(named[0] == text::ascii_lower(spelled[0]));
    assert(!text::white_space(named[0]));
    lemma_trim_start(gap, named);
    assert(named[n - 1] == text::ascii_lower(spelled.last()));
    if rest.len() > 0 {
        assert(named[n] == text::ascii_lower(rest[0]));
        lemma_trim_end(named, n + 1);
    } else {
        lemma_trim_end(named, n);
    }
    let trimmed = text::trim_end(named);
    assert(trimmed == named.subrange(0, trimmed.len() as int));
    assert forall|j: int| 0 <= j < n implies trimmed[j] != '.' by {
        assert(trimmed[j] == label[j]);
    }
    if rest.len() == 0 {
        assert(trimmed.len() == n);
    } else {
        assert(trimmed[n] == named[n]);
    }
    text::lemma_before(trimmed, '.', n);
    assert(trimmed.take(n) =~= label);
}

/// The name of a header is taken out of a host once, at its first place, and what is
/// around it names the subdomain as if it had not been there.
pub proof fn law_header_name_is_taken_out(front: Seq<char>, field: Seq<char>, back: Seq<char>)
    requires
        is_ascii_chars(front),
        is_ascii_chars(field),
        is_ascii_chars(back),
        text::ascii_lowercase(field) == "host:"@,
        forall|j: int|
            0 <= j < front.len() ==> !"host:"@.is_prefix_of(
                #[trigger] text::ascii_lowercase(front + field + back).skip(j),
            ),
        forall|j: int|
            0 <= j <= (front + back).len() ==> !"host:"@.is_prefix_of(
                #[trigger] text::ascii_lowercase(front + back).skip(j),
            ),
    ensures
        subdomain_of(front + field + back) == subdomain_of(front + back),
{
    let whole = front + field + back;
    let (f, b) = (text::ascii_lowercase(front), text::ascii_lowercase(back));
    assert(is_ascii_chars(whole)) by {
        assert forall|i: int| 0 <= i < whole.len() implies '\0' <= #[trigger] whole[i]
            <= '\u{7f}' by {
            let (m, n) = (front.len(), field.len());
            if i < m {
                assert(whole[i] == front[i]);
            } else if i < m + n {
                assert(whole[i] == field[i - m]);
            } else {
                assert(whole[i] == back[i - m - n]);
            }
        }
    }
    assert(is_ascii_chars(front + back)) by {
        let both = front + back;
        assert forall|i: int| 0 <= i < both.len() implies '\0' <= #[trigger] both[i]
            <= '\u{7f}' by {
            if i < front.len() {
                assert(both[i] == front[i]);
            } else {
                assert(both[i] == back[i - front.len()]);
            }
        }
    }
    lemma_ascii_lowercase_concat(front + field, back);
    lemma_ascii_lowercase_concat(front, field);
    lemma_ascii_lowercase_concat(front, back);
    assert(text::ascii_lowercase(whole) =~= f + "host:"@ + b);
    text::law_first_place_is_removed(f, "host:"@, b);
    text::law_missing_pattern_removes_nothing(f + b, "host:"@);
}

/// A text is cut into lines at its line feeds: each takes a carriage return in front
/// of it along, and what comes behind is cut in the same way. The last line need not
/// end, and what does not end keeps a carriage return.
pub proof fn law_text_is_cut_into_lines(line: Seq<char>, rest: Seq<char>)
    requires
        !line.contains('\n'),
    ensures
        lines(line + seq!['\r', '\n'] + rest) == seq![line] + lines(rest),
        line.len() == 0 || line.last() != '\r' ==> lines(line + seq!['\n'] + rest) == seq![line]
            + lines(rest),
        line.len() > 0 ==> lines(line) == seq![line],
        lines(Seq::empty()).len() == 0,
{
    lemma_first_line(line, rest);
    let n = line.len() as int;
    let whole = line + seq!['\n'] + rest;
    assert forall|j: int| 0 <= j < n implies whole[j] != '\n' && line[j] != '\n' by {
        assert(line.contains(line[j]));
    }
    text::lemma_before(whole, '\n', n);
    text::lemma_before(line, '\n', n);
    assert(whole.take(n) =~= line);
    assert(whole.skip(n + 1) =~= rest);
    assert(line.take(n) =~= line);
}

/// The `Host` header of a request is the first of its lines that is one, and there is
/// none only if no line is one.
pub proof fn law_host_line_is_the_first_one(request: Seq<char>)
    ensures
        match host_line(request) {
            Some(line) => exists|i: int|
                0 <= i < lines(request).len() && #[trigger] lines(request)[i] == line && names_host(
                    line,
                ) && forall|j: int| 0 <= j < i ==> !names_host(#[trigger] lines(request)[j]),
            None => forall|j: int|
                0 <= j < lines(request).len() ==> !names_host(#[trigger] lines(request)[j]),
        },
{
    lemma_first_host(lines(request));
}

proof fn lemma_first_host(all: Seq<Seq<char>>)
    ensures
        match first_host(all) {
            Some(line) => exists|i: int|
                0 <= i < all.len() && #[trigger] all[i] == line && names_host(line) && forall|j: int|
                    0 <= j < i ==> !names_host(#[trigger] all[j]),
            None => forall|j: int| 0 <= j < all.len() ==> !names_host(#[trigger] all[j]),
        },
    decreases all.len(),
{
    if all.len() > 0 {
        if names_host(all.first()) {
            assert(all[0] == all.first());
        } else {
            let rest = all.drop_first();
            lemma_first_host(rest);
            assert(forall|j: int| 0 < j < all.len() ==> #[trigger] all[j] == rest[j - 1]);
            match first_host(rest) {
                Some(line) => {
                    let i = choose|i: int|
                        0 <= i < rest.len() && #[trigger] rest[i] == line && names_host(line)
                            && forall|j: int| 0 <= j < i ==> !names_host(#[trigger] rest[j]);
                    assert(all[i + 1] == line);
                    assert forall|j: int| 0 <= j < i + 1 implies !names_host(#[trigger] all[j]) by {
                        if j > 0 {
                            assert(!names_host(rest[j - 1]));
                        }
                    }
                },
                None => {
                    assert forall|j: int| 0 <= j < all.len() implies !names_host(
                        #[trigger] all[j],
                    ) by {
                        if j > 0 {
                            assert(!names_host(rest[j - 1]));
                        }
                    }
                },
            }
        }
    }
}

/// A line of fewer than five characters, all of them ASCII, is no `Host` header.
pub proof fn law_short_line_is_no_host(line: Seq<char>)
    requires
        is_ascii_chars(line),
        line.len() < 5,
    ensures
        !names_host(line),
{
    reveal_strlit("host:");
}

/// Of well-formed bytes the first line that is a `Host` header decides, wherever it
/// stands and however the lines end. Without one they ask for no host.
pub proof fn law_first_host_line_of_a_text_decides(request: Seq<char>, i: int)
    requires
        forall|j: int| 0 <= j < i && j < lines(request).len() ==> !names_host(
            #[trigger] lines(request)[j],
        ),
    ensures
        0 <= i < lines(request).len() && names_host(lines(request)[i]) ==> requested_host(
            encode_utf8(request),
        ) == Some(subdomain_of(lines(request)[i])),
        i >= lines(request).len() ==> requested_host(encode_utf8(request)) is None,
{
    encode_utf8_valid_utf8(request);
    encode_utf8_decode_utf8(request);
    let all = lines(request);
    lemma_first_host(all);
    if 0 <= i < all.len() && names_host(all[i]) {
        assert(first_host(all) is Some);
        let line = first_host(all)->0;
        let k = choose|k: int|
            0 <= k < all.len() && #[trigger] all[k] == line && names_host(line) && forall|j: int|
                0 <= j < k ==> !names_host(#[trigger] all[j]);
        if k < i {
            assert(!names_host(all[k]));
        } else if i < k {
            assert(!names_host(all[i]));
        }
    }
}

/// A line is a `Host` header if and only if its lowercase form starts with `host:`,
/// whatever characters it is made of.
pub proof fn law_host_header_starts_with_its_name(line: Seq<char>)
    ensures
        names_host(line) <==> text::lowercase(line).len() >= 5 && text::lowercase(line).take(5)
            == "host:"@,
{
    reveal_strlit("host:");
    let lowered = text::lowercase(line);
    if lowered.len() >= 5 {
        assert(lowered.take(5) =~= lowered.subrange(0, 5));
    }
}

/// Whatever characters a host is made of, it is its lowercase form that names the
/// subdomain: what stands behind the name of the header and behind white space, up to
/// the first dot, or up to white space at the end. Nothing there means no subdomain.
pub proof fn law_lowercase_form_names_the_label(
    host: Seq<char>,
    gap: Seq<char>,
    label: Seq<char>,
    rest: Seq<char>,
    end: Seq<char>,
)
    requires
        text::lowercase(host) == "host:"@ + (gap + (label + rest) + end),
        text::blank(gap),
        text::blank(end),
        !label.contains('.'),
        rest.len() == 0 || rest[0] == '.',
        (label + rest).len() > 0 ==> !text::white_space((label + rest).first())
            && !text::white_space((label + rest).last()),
    ensures
        label.len() > 0 ==> subdomain_of(host) == Some(label),
        label.len() == 0 ==> subdomain_of(host) is None,
{
    let lowered = text::lowercase(host);
    let value = gap + (label + rest) + end;
    assert(lowered.subrange(0, "host:"@.len() as int) =~= "host:"@);
    assert(lowered.skip("host:"@.len() as int) =~= value);
    text::law_white_space_around_is_trimmed(gap, label + rest, end);
    if rest.len() > 0 {
        assert(label + rest =~= label + seq!['.'] + rest.drop_first());
        text::law_text_is_cut_at_the_first_stop(label, '.', rest.drop_first());
    } else {
        assert(label + rest =~= label);
        text::law_text_is_cut_at_the_first_stop(label, '.', rest);
    }
}

/// The same holds of a host in whose lowercase form the name of the header does not
/// stand.
pub proof fn law_lowercase_form_of_a_bare_host_names_the_label(
    host: Seq<char>,
    gap: Seq<char>,
    label: Seq<char>,
    rest: Seq<char>,
    end: Seq<char>,
)
    requires
        text::lowercase(host) == gap + (label + rest) + end,
        forall|j: int|
            0 <= j <= text::lowercase(host).len() ==> !"host:"@.is_prefix_of(
                #[trigger] text::lowercase(host).skip(j),
            ),
        text::blank(gap),
        text::blank(end),
        !label.contains('.'),
        rest.len() == 0 || rest[0] == '.',
        (label + rest).len() > 0 ==> !text::white_space((label + rest).first())
            && !text::white_space((label + rest).last()),
    ensures
        label.len() > 0 ==> subdomain_of(host) == Some(label),
        label.len() == 0 ==> subdomain_of(host) is None,
{
    text::law_missing_pattern_removes_nothing(text::lowercase(host), "host:"@);
    text::law_white_space_around_is_trimmed(gap, label + rest, end);
    if rest.len() > 0 {
        assert(label + rest =~= label + seq!['.'] + rest.drop_first());
        text::law_text_is_cut_at_the_first_stop(label, '.', rest.drop_first());
    } else {
        assert(label + rest =~= label);
        text::law_text_is_cut_at_the_first_stop(label, '.', rest);
    }
}

/// The name of the header is taken out of the lowercase form of any host where it
/// first stands, and what is around it names the subdomain.
pub proof fn law_header_name_is_taken_out_of_the_lowercase_form(
    host: Seq<char>,
    front: Seq<char>,
    back: Seq<char>,
    gap: Seq<char>,
    label: Seq<char>,
    rest: Seq<char>,
    end: Seq<char>,
)
    requires
        text::lowercase(host) == front + "host:"@ + back,
        forall|j: int|
            0 <= j < front.len() ==> !"host:"@.is_prefix_of(
                #[trigger] (front + "host:"@ + back).skip(j),
            ),
        front + back == gap + (label + rest) + end,
        text::blank(gap),
        text::blank(end),
        !label.contains('.'),
        rest.len() == 0 || rest[0] == '.',
        (label + rest).len() > 0 ==> !text::white_space((label + rest).first())
            && !text::white_space((label + rest).last()),
    ensures
        label.len() > 0 ==> subdomain_of(host) == Some(label),
        label.len() == 0 ==> subdomain_of(host) is None,
{
    text::law_first_place_is_removed(front, "host:"@, back);
    text::law_white_space_around_is_trimmed(gap, label + rest, end);
    if rest.len() > 0 {
        assert(label + rest =~= label + seq!['.'] + rest.drop_first());
        text::law_text_is_cut_at_the_first_stop(label, '.', rest.drop_first());
    } else {
        assert(label + rest =~= label);
        text::law_text_is_cut_at_the_first_stop(label, '.', rest);
    }
}

/// Of any bytes, well-formed or not, the first line of their text that is a `Host`
/// header decides. Without one they ask for no host.
pub proof fn law_first_host_line_of_any_bytes_decides(bytes: Seq<u8>, i: int)
    requires
        forall|j: int|
            0 <= j < i && j < lines(text::text_of(bytes)).len() ==> !names_host(
                #[trigger] lines(text::text_of(bytes))[j],
            ),
    ensures
        0 <= i < lines(text::text_of(bytes)).len() && names_host(lines(text::text_of(bytes))[i])
            ==> requested_host(bytes) == Some(subdomain_of(lines(text::text_of(bytes))[i])),
        i >= lines(text::text_of(bytes)).len() ==> requested_host(bytes) is None,
{
    let all = lines(text::text_of(bytes));
    lemma_first_host(all);
    if 0 <= i < all.len() && names_host(all[i]) {
        assert(first_host(all) is Some);
        let line = first_host(all)->0;
        let k = choose|k: int|
            0 <= k < all.len() && #[trigger] all[k] == line && names_host(line) && forall|j: int|
                0 <= j < k ==> !names_host(#[trigger] all[j]);
        if k < i {
            assert(!names_host(all[k]));
        } else if i < k {
            assert(!names_host(all[i]));
        }
    }
}

/// What is found of a host is seen as it is.
pub proof fn law_found_host_is_seen_whole(name: String)
    ensures
        RequestedHost::Subdomain(name).found() == Some(Some(name@)),
        RequestedHost::NoSubdomain.found() == Some(None::<Seq<char>>),
        RequestedHost::Missing.found() is None,
{
}

} // verus!
