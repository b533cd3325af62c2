//! The bridge to AI chats in the embedded web view. A script in the page
//! hands replies and VibiClaw programs to the application through the
//! page address: `#vibi-<i>-<hex>` carries piece `i` of a reply as hex,
//! `#vibi-done` ends it, and `#vibi-action-…` does the same for a program.
//! This module reads those addresses, gathers the pieces, and decides what
//! the application is to do; the web view itself stays in the application.

use vstd::prelude::*;
use vstd::utf8::{decode_utf8, encode_utf8, is_char_boundary, valid_utf8};
use crate::crypto::{
    hex_decode, hex_decoded, hex_pieces_whole, pair_value, pair_value_exec, string_from_utf8,
};
use crate::text::{
    chars_of, contains_exec, contains_seq, find_from, find_from_exec, lemma_find_from_found,
    occurs_at, push_str, str_eq, string_of_range, trim_str, trimmed,
};

verus! {

// ---------------------------------------------------------------------
// Reading an index.
// ---------------------------------------------------------------------

pub open spec fn is_digit(c: char) -> bool {
    '0' <= c && c <= '9'
}

/// The number written by the decimal digits `d`.
pub open spec fn digits_value(d: Seq<char>) -> nat
    decreases d.len(),
{
    if d.len() == 0 {
        0
    } else {
        digits_value(d.drop_last()) * 10 + (d.last() as nat - '0' as nat) as nat
    }
}

/// The digits of an unsigned number's text: without its `+` sign, if any.
pub open spec fn unsigned_digits(s: Seq<char>) -> Seq<char> {
    if s.len() > 0 && s[0] == '+' {
        s.skip(1)
    } else {
        s
    }
}

/// What `str::parse::<usize>` makes of `s`: an optional `+` and at least
/// one decimal digit, for a value that fits in `usize`.
pub open spec fn parsed_usize(s: Seq<char>) -> Option<nat> {
    let d = unsigned_digits(s);
    if d.len() == 0 || exists|i: int| 0 <= i < d.len() && !is_digit(#[trigger] d[i]) {
        None
    } else if digits_value(d) > usize::MAX {
        None
    } else {
        Some(digits_value(d))
    }
}

proof fn lemma_digits_value_grows(d: Seq<char>, c: char)
    requires
        is_digit(c),
    ensures
        digits_value(d.push(c)) == digits_value(d) * 10 + (c as nat - '0' as nat),
        digits_value(d.push(c)) >= digits_value(d),
{
    assert(d.push(c).drop_last() =~= d);
}

/// Reads an index written in decimal (see `parsed_usize`).
pub fn parse_index(s: &str) -> (r: Option<usize>)
    ensures
        match parsed_usize(s@) {
            Some(v) => r is Some && r->0 == v,
            None => r is None,
        },
{
    let cs = chars_of(s);
    let n = cs.len();
    let start: usize = if n > 0 && cs[0] == '+' {
        1
    } else {
        0
    };
    let ghost d = unsigned_digits(s@);
    assert(d =~= cs@.subrange(start as int, n as int));
    if start >= n {
        return None;
    }
    let mut v: usize = 0;
    let mut too_big = false;
    let mut i: usize = start;
    assert(d.take(0) =~= Seq::<char>::empty());
    while i < n
        invariant
            n == cs@.len(),
            cs@ == s@,
            start <= i <= n,
            d == cs@.subrange(start as int, n as int),
            d == unsigned_digits(s@),
            forall|k: int| 0 <= k < i - start ==> is_digit(#[trigger] d[k]),
            !too_big ==> v == digits_value(d.take(i - start)),
            too_big ==> digits_value(d.take(i - start)) > usize::MAX,
        decreases n - i,
    {
        let c = cs[i];
        if !('0' <= c && c <= '9') {
            assert(d.len() == n - start);
            assert(0 <= i - start < d.len());
            assert(!is_digit(unsigned_digits(s@)[i - start]));
            return None;
        }
        let dig: usize = if c == '0' { 0 } else if c == '1' { 1 } else if c == '2' { 2 } else if c
            == '3' { 3 } else if c == '4' { 4 } else if c == '5' { 5 } else if c == '6' { 6 } else if c
            == '7' { 7 } else if c == '8' { 8 } else { 9 };
        assert(dig == c as nat - '0' as nat);
        proof {
            assert(d.take(i - start + 1) =~= d.take(i - start).push(c));
            lemma_digits_value_grows(d.take(i - start), c);
        }
        if !too_big {
            match v.checked_mul(10) {
                Some(m) => match m.checked_add(dig) {
                    Some(w) => {
                        v = w;
                    },
                    None => {
                        too_big = true;
                    },
                },
                None => {
                    too_big = true;
                },
            }
        }
        i = i + 1;
    }
    assert(d.take(n - start) =~= d);
    if too_big {
        None
    } else {
        Some(v)
    }
}

// ---------------------------------------------------------------------
// Reading an address.
// ---------------------------------------------------------------------

/// `s` up to the first occurrence of `pat`, or all of `s`.
pub open spec fn before(s: Seq<char>, pat: Seq<char>) -> Seq<char> {
    match find_from(s, pat, 0) {
        Some(k) => s.take(k),
        None => s,
    }
}

/// What an address says to the bridge.
pub enum Signal {
    /// Piece `index` of a program, as hex text.
    ActionChunk { index: usize, data: String },
    /// The program is complete.
    ActionDone,
    /// Piece `index` of a reply, as hex text.
    ReplyChunk { index: usize, data: String },
    /// The reply is complete.
    ReplyDone,
    /// Nothing for the bridge.
    Ignored,
}

/// Mathematical model of a [`Signal`].
pub enum SignalModel {
    ActionChunk { index: nat, data: Seq<char> },
    ActionDone,
    ReplyChunk { index: nat, data: Seq<char> },
    ReplyDone,
    Ignored,
}

impl View for Signal {
    type V = SignalModel;

    open spec fn view(&self) -> SignalModel {
        match self {
            Signal::ActionChunk { index, data } => SignalModel::ActionChunk {
                index: *index as nat,
                data: data@,
            },
            Signal::ActionDone => SignalModel::ActionDone,
            Signal::ReplyChunk { index, data } => SignalModel::ReplyChunk {
                index: *index as nat,
                data: data@,
            },
            Signal::ReplyDone => SignalModel::ReplyDone,
            Signal::Ignored => SignalModel::Ignored,
        }
    }
}

/// The payload after a marker: up to the first `&`, then up to the first `?`.
pub open spec fn payload(rest: Seq<char>) -> Seq<char> {
    before(before(rest, "&"@), "?"@)
}

/// What a payload says: `done` ends the message; `<i>-<data>` is piece
/// `i`; anything else is ignored.
pub open spec fn payload_signal(p: Seq<char>, action: bool) -> SignalModel {
    if p == "done"@ {
        if action {
            SignalModel::ActionDone
        } else {
            SignalModel::ReplyDone
        }
    } else {
        match find_from(p, "-"@, 0) {
            Some(d) => match parsed_usize(p.take(d)) {
                Some(index) => if action {
                    SignalModel::ActionChunk { index, data: p.skip(d + 1) }
                } else {
                    SignalModel::ReplyChunk { index, data: p.skip(d + 1) }
                },
                None => SignalModel::Ignored,
            },
            None => SignalModel::Ignored,
        }
    }
}

/// What an address says: the payload after the first `#vibi-action-`
/// concerns a program; failing that, the payload after the first `#vibi-`
/// concerns a reply.
pub open spec fn uri_signal(uri: Seq<char>) -> SignalModel {
    match find_from(uri, "#vibi-action-"@, 0) {
        Some(k) => payload_signal(payload(uri.skip(k + 13)), true),
        None => match find_from(uri, "#vibi-"@, 0) {
            Some(k) => payload_signal(payload(uri.skip(k + 6)), false),
            None => SignalModel::Ignored,
        },
    }
}

fn before_exec(s: &Vec<char>, pat: &str) -> (r: Vec<char>)
    ensures
        r@ == before(s@, pat@),
{
    let p = chars_of(pat);
    match find_from_exec(s, &p, 0) {
        Some(k) => {
            proof {
                lemma_find_from_found(s@, p@, 0);
            }
            let mut r: Vec<char> = Vec::new();
            let mut i: usize = 0;
            while i < k
                invariant
                    k <= s@.len(),
                    i <= k,
                    r@ == s@.take(i as int),
                decreases k - i,
            {
                r.push(s[i]);
                assert(s@.take(i + 1) =~= s@.take(i as int).push(s@[i as int]));
                i = i + 1;
            }
            r
        },
        None => {
            let mut r: Vec<char> = Vec::new();
            let mut i: usize = 0;
            while i < s.len()
                invariant
                    i <= s@.len(),
                    r@ == s@.take(i as int),
                decreases s@.len() - i,
            {
                r.push(s[i]);
                assert(s@.take(i + 1) =~= s@.take(i as int).push(s@[i as int]));
                i = i + 1;
            }
            assert(s@.take(s@.len() as int) =~= s@);
            r
        },
    }
}

fn skip_exec(s: &Vec<char>, from: usize) -> (r: Vec<char>)
    requires
        from <= s@.len(),
    ensures
        r@ == s@.skip(from as int),
{
    let mut r: Vec<char> = Vec::new();
    let mut i: usize = from;
    while i < s.len()
        invariant
            from <= i <= s@.len(),
            r@ == s@.subrange(from as int, i as int),
        decreases s@.len() - i,
    {
        r.push(s[i]);
        assert(s@.subrange(from as int, i + 1) =~= s@.subrange(from as int, i as int).push(
            s@[i as int],
        ));
        i = i + 1;
    }
    r
}

fn is_done(p: &Vec<char>) -> (r: bool)
    ensures
        r == (p@ == "done"@),
{
    let d = chars_of("done");
    proof {
        reveal_strlit("done");
    }
    if p.len() != 4 {
        return false;
    }
    let same = p[0] == d[0] && p[1] == d[1] && p[2] == d[2] && p[3] == d[3];
    proof {
        if same {
            assert(p@ =~= d@);
        }
    }
    same
}

fn read_payload(rest: &Vec<char>, action: bool) -> (r: Signal)
    ensures
        r@ == payload_signal(payload(rest@), action),
{
    let p = before_exec(&before_exec(rest, "&"), "?");
    let _n = p.len();
    if is_done(&p) {
        return if action {
            Signal::ActionDone
        } else {
            Signal::ReplyDone
        };
    }
    let dash = chars_of("-");
    match find_from_exec(&p, &dash, 0) {
        Some(d) => {
            proof {
                lemma_find_from_found(p@, dash@, 0);
                reveal_strlit("-");
                assert(dash@.len() == 1);
                assert(occurs_at(p@, dash@, d as int));
            }
            let head = string_of_range(&p, 0, d);
            assert(head@ =~= p@.take(d as int));
            match parse_index(head.as_str()) {
                Some(index) => {
                    let data = string_of_range(&p, d + 1, p.len());
                    assert(data@ =~= p@.skip(d + 1));
                    if action {
                        Signal::ActionChunk { index, data }
                    } else {
                        Signal::ReplyChunk { index, data }
                    }
                },
                None => Signal::Ignored,
            }
        },
        None => Signal::Ignored,
    }
}

/// Reads what an address of the web view says (see `uri_signal`).
pub fn read_uri(uri: &str) -> (r: Signal)
    ensures
        r@ == uri_signal(uri@),
{
    let u = chars_of(uri);
    let _n = u.len();
    let action = chars_of("#vibi-action-");
    proof {
        reveal_strlit("#vibi-action-");
        reveal_strlit("#vibi-");
    }
    match find_from_exec(&u, &action, 0) {
        Some(k) => {
            proof {
                lemma_find_from_found(u@, action@, 0);
                assert(action@.len() == 13);
                assert(occurs_at(u@, action@, k as int));
            }
            read_payload(&skip_exec(&u, k + 13), true)
        },
        None => {
            let reply = chars_of("#vibi-");
            match find_from_exec(&u, &reply, 0) {
                Some(k) => {
                    proof {
                        lemma_find_from_found(u@, reply@, 0);
                        assert(reply@.len() == 6);
                        assert(occurs_at(u@, reply@, k as int));
                    }
                    read_payload(&skip_exec(&u, k + 6), false)
                },
                None => Signal::Ignored,
            }
        },
    }
}

// ---------------------------------------------------------------------
// Gathering the pieces.
// ---------------------------------------------------------------------

/// `s` lengthened with empty pieces to at least `n` pieces.
pub open spec fn padded(s: Seq<Seq<char>>, n: nat) -> Seq<Seq<char>> {
    if s.len() >= n {
        s
    } else {
        s + Seq::new((n - s.len()) as nat, |_k: int| Seq::<char>::empty())
    }
}

/// The pieces after piece `i` arrives with text `d`: the list is
/// lengthened with empty pieces as far as `i`, and piece `i` becomes `d`.
pub open spec fn with_piece(s: Seq<Seq<char>>, i: nat, d: Seq<char>) -> Seq<Seq<char>> {
    padded(s, i + 1).update(i as int, d)
}

/// The pieces joined in order.
pub open spec fn joined(s: Seq<Seq<char>>) -> Seq<char>
    decreases s.len(),
{
    if s.len() == 0 {
        Seq::empty()
    } else {
        joined(s.drop_last()) + s.last()
    }
}

/// Pieces of one message may arrive in any order: storing two pieces with
/// different indices gives the same pieces whichever arrives first.
pub proof fn law_pieces_arrive_in_any_order(
    s: Seq<Seq<char>>,
    i: nat,
    a: Seq<char>,
    j: nat,
    b: Seq<char>,
)
    requires
        i != j,
    ensures
        with_piece(with_piece(s, i, a), j, b) == with_piece(with_piece(s, j, b), i, a),
{
    let x = with_piece(with_piece(s, i, a), j, b);
    let y = with_piece(with_piece(s, j, b), i, a);
    assert(x.len() == y.len());
    assert forall|k: int| 0 <= k < x.len() implies x[k] == y[k] by {
        if k != i && k != j {
            if k < s.len() {
                assert(padded(s, i + 1)[k] == s[k]);
                assert(padded(s, j + 1)[k] == s[k]);
            } else {
                assert(padded(s, i + 1).len() <= k || padded(s, i + 1)[k] == Seq::<char>::empty());
                assert(padded(s, j + 1).len() <= k || padded(s, j + 1)[k] == Seq::<char>::empty());
            }
        }
    }
    assert(x =~= y);
}

/// The pieces of a message received so far, by index.
#[derive(Debug)]
pub struct PieceBuffer {
    pub pieces: Vec<String>,
}

impl PieceBuffer {
    pub open spec fn model(&self) -> Seq<Seq<char>> {
        self.pieces.deep_view()
    }

    /// An empty buffer.
    pub fn new() -> (b: PieceBuffer)
        ensures
            b.model().len() == 0,
    {
        let b = PieceBuffer { pieces: Vec::new() };
        assert(b.model() =~= Seq::<Seq<char>>::empty());
        b
    }

    /// Stores piece `index` (see `with_piece`).
    pub fn store(&mut self, index: usize, data: String)
        requires
            index < usize::MAX,
        ensures
            final(self).model() == with_piece(old(self).model(), index as nat, data@),
    {
        let ghost start = self.model();
        while self.pieces.len() <= index
            invariant
                index < usize::MAX,
                start.len() <= self.model().len(),
                self.model().len() <= if start.len() > index + 1 { start.len() as int } else { index + 1 },
                forall|k: int| 0 <= k < start.len() ==> #[trigger] self.model()[k] == start[k],
                forall|k: int|
                    start.len() <= k < self.model().len() ==> #[trigger] self.model()[k]
                        == Seq::<char>::empty(),
            decreases index + 1 - self.pieces@.len(),
        {
            let ghost before = self.model();
            self.pieces.push(String::new());
            assert(self.model() =~= before.push(Seq::<char>::empty()));
        }
        let ghost full = self.model();
        assert(full =~= padded(start, index as nat + 1));
        self.pieces.set(index, data);
        assert(self.model() =~= full.update(index as int, data@));
    }

    /// Joins the pieces in order and empties the buffer.
    pub fn take_all(&mut self) -> (text: String)
        ensures
            text@ == joined(old(self).model()),
            final(self).model().len() == 0,
    {
        let mut text = String::new();
        let mut i: usize = 0;
        proof {
            reveal_strlit("");
        }
        assert(self.model().take(0) =~= Seq::<Seq<char>>::empty());
        while i < self.pieces.len()
            invariant
                i <= self.pieces@.len(),
                text@ == joined(self.model().take(i as int)),
            decreases self.pieces@.len() - i,
        {
            assert(self.model().take(i + 1).drop_last() =~= self.model().take(i as int));
            push_str(&mut text, self.pieces[i].as_str());
            i = i + 1;
        }
        assert(self.model().take(self.pieces@.len() as int) =~= self.model());
        self.pieces.clear();
        assert(self.model() =~= Seq::<Seq<char>>::empty());
        text
    }
}

// ---------------------------------------------------------------------
// Decoding a complete message.
// ---------------------------------------------------------------------

/// Whether hex text can be read in two-byte pieces without cutting a
/// character (see `hex_pieces_whole`).
pub fn pieces_whole(hex: &str) -> (r: bool)
    ensures
        r == hex_pieces_whole(encode_utf8(hex@)),
{
    let n = hex.as_bytes().len();
    if n % 2 != 0 {
        return true;
    }
    let mut i: usize = 0;
    while i < n
        invariant
            n == encode_utf8(hex@).len(),
            n % 2 == 0,
            i % 2 == 0,
            i <= n,
            forall|k: int| 0 <= k < i && k % 2 == 0 ==> is_char_boundary(encode_utf8(hex@), k),
        decreases n - i,
    {
        if !hex.is_char_boundary(i) {
            return false;
        }
        i = i + 2;
    }
    hex.is_char_boundary(n)
}

/// The text of a complete reply: its hex decoded, as UTF-8.
pub open spec fn reply_text(b: Seq<u8>) -> Option<Seq<char>> {
    match hex_decoded(b) {
        Ok(bytes) => if valid_utf8(bytes) {
            Some(decode_utf8(bytes))
        } else {
            None
        },
        Err(_) => None,
    }
}

/// Decodes a complete reply (see `reply_text`); `None` when it is not hex
/// for UTF-8 text.
pub fn decode_reply(hex: &str) -> (r: Option<String>)
    requires
        hex_pieces_whole(encode_utf8(hex@)),
    ensures
        match reply_text(encode_utf8(hex@)) {
            Some(t) => r matches Some(s) && s@ == t,
            None => r is None,
        },
{
    match hex_decode(hex) {
        Ok(bytes) => match string_from_utf8(bytes) {
            Ok(s) => Some(s),
            Err(_) => None,
        },
        Err(_) => None,
    }
}

/// The bytes of the hex pairs of `b` that are valid, in order; invalid
/// pairs are skipped.
pub open spec fn valid_pairs(b: Seq<u8>) -> Seq<u8>
    decreases b.len(),
{
    if b.len() < 2 {
        Seq::empty()
    } else {
        match pair_value(b[0], b[1]) {
            Some(v) => seq![v] + valid_pairs(b.skip(2)),
            None => valid_pairs(b.skip(2)),
        }
    }
}

/// What `String::from_utf8_lossy` makes of `bytes`.
pub uninterp spec fn utf8_lossy(bytes: Seq<u8>) -> Seq<char>;

/// Calls `String::from_utf8_lossy`. Its result is named by `utf8_lossy`;
/// as std documents, valid UTF-8 comes back unchanged.
#[verifier::external_body]
fn lossy_text(bytes: &[u8]) -> (r: String)
    ensures
        r@ == utf8_lossy(bytes@),
        valid_utf8(bytes@) ==> r@ == decode_utf8(bytes@),
{
    String::from_utf8_lossy(bytes).to_string()
}

/// A program is only run when it holds `main vibi.claw`.
pub open spec fn program_marker() -> Seq<char> {
    "main vibi.claw"@
}

/// The program carried by complete hex text: the bytes of its valid
/// pairs read leniently as UTF-8, kept only when it holds the marker.
pub open spec fn program_of(b: Seq<u8>) -> Option<Seq<char>> {
    let text = utf8_lossy(valid_pairs(b));
    if contains_seq(text, program_marker()) {
        Some(text)
    } else {
        None
    }
}

/// Reads a complete program (see `program_of`). The hex text must have
/// an even length and be cut into pairs at character boundaries.
pub fn decode_program(hex: &str) -> (r: Option<String>)
    requires
        encode_utf8(hex@).len() % 2 == 0,
        hex_pieces_whole(encode_utf8(hex@)),
    ensures
        match program_of(encode_utf8(hex@)) {
            Some(t) => r matches Some(s) && s@ == t,
            None => r is None,
        },
{
    let b = hex.as_bytes();
    let ghost bs = encode_utf8(hex@);
    let n = b.len();
    let mut bytes: Vec<u8> = Vec::new();
    let mut i: usize = 0;
    assert(bs.skip(0) =~= bs);
    assert(Seq::<u8>::empty() + valid_pairs(bs.skip(0)) =~= valid_pairs(bs));
    while i < n
        invariant
            b@ == bs,
            n == bs.len(),
            n % 2 == 0,
            i % 2 == 0,
            i <= n,
            bytes@ + valid_pairs(bs.skip(i as int)) == valid_pairs(bs),
        decreases n - i,
    {
        let ghost rest = bs.skip(i as int);
        assert(rest[0] == b@[i as int]);
        assert(rest[1] == b@[i + 1]);
        assert(rest.skip(2) =~= bs.skip(i + 2));
        match pair_value_exec(b[i], b[i + 1]) {
            Some(v) => {
                let ghost before = bytes@;
                bytes.push(v);
                assert(bytes@ + valid_pairs(bs.skip(i + 2)) =~= before + (seq![v] + valid_pairs(
                    bs.skip(i + 2),
                )));
            },
            None => {},
        }
        i = i + 2;
    }
    assert(bs.skip(n as int) =~= Seq::<u8>::empty());
    assert(bytes@ + Seq::<u8>::empty() =~= bytes@);
    let text = lossy_text(bytes.as_slice());
    let t = chars_of(text.as_str());
    proof {
        reveal_strlit("main vibi.claw");
    }
    if contains_exec(&t, &chars_of("main vibi.claw")) {
        Some(text)
    } else {
        None
    }
}

// ---------------------------------------------------------------------
// Sending a message through the page.
// ---------------------------------------------------------------------

/// The instructions sent ahead of the first message and every tenth after.
pub open spec fn system_prompt() -> Seq<char> {
    PROMPT@
}

/// What is typed into the page for the `count`-th message: the
/// instructions, a blank line and the text when `count % 10 == 1`, else
/// the text alone.
pub open spec fn outgoing(count: nat, text: Seq<char>) -> Seq<char> {
    if count % 10 == 1 {
        system_prompt() + "\n\n"@ + text
    } else {
        text
    }
}

/// The instructions go out with the first message and again with every
/// tenth after it: the text typed for a message and for the one ten later
/// are alike, a message whose count is one past a multiple of ten starts
/// with the instructions and a blank line before the user's text, and any
/// other message is the user's text alone.
pub proof fn law_instructions_every_tenth(n: nat, text: Seq<char>)
    ensures
        outgoing(n + 10, text) == outgoing(n, text),
        n % 10 == 1 ==> outgoing(n, text).take(system_prompt().len() + 2int) == system_prompt() + "\n\n"@
            && outgoing(n, text).skip(system_prompt().len() + 2int) == text,
        n % 10 != 1 ==> outgoing(n, text) == text,
{
    assert((n + 10) % 10 == n % 10);
    if n % 10 == 1 {
        reveal_strlit("\n\n");
        let o = outgoing(n, text);
        assert(o.take(system_prompt().len() + 2int) =~= system_prompt() + "\n\n"@);
        assert(o.skip(system_prompt().len() + 2int) =~= text);
    }
}

/// How a character is written inside a quoted script string.
pub open spec fn escaped_char(c: char) -> Seq<char> {
    if c == '\\' {
        seq!['\\', '\\']
    } else if c == '\'' {
        seq!['\\', '\'']
    } else if c == '\n' {
        seq!['\\', 'n']
    } else if c == '"' {
        seq!['\\', '"']
    } else {
        seq![c]
    }
}

/// `s` written inside a quoted script string: backslashes doubled, and
/// quotes and line breaks escaped.
pub open spec fn escaped(s: Seq<char>) -> Seq<char>
    decreases s.len(),
{
    if s.len() == 0 {
        Seq::empty()
    } else {
        escaped(s.drop_last()) + escaped_char(s.last())
    }
}

/// Escapes text for a quoted script string (see `escaped`).
pub fn escape_for_script(s: &str) -> (r: String)
    ensures
        r@ == escaped(s@),
{
    let cs = chars_of(s);
    let mut r = String::new();
    let mut i: usize = 0;
    proof {
        reveal_strlit("");
    }
    assert(cs@.take(0) =~= Seq::<char>::empty());
    while i < cs.len()
        invariant
            i <= cs@.len(),
            r@ == escaped(cs@.take(i as int)),
        decreases cs@.len() - i,
    {
        let c = cs[i];
        assert(cs@.take(i + 1).drop_last() =~= cs@.take(i as int));
        let ghost before = r@;
        if c == '\\' {
            r.push('\\');
            r.push('\\');
        } else if c == '\'' {
            r.push('\\');
            r.push('\'');
        } else if c == '\n' {
            r.push('\\');
            r.push('n');
        } else if c == '"' {
            r.push('\\');
            r.push('"');
        } else {
            r.push(c);
        }
        assert(r@ =~= before + escaped_char(c));
        i = i + 1;
    }
    assert(cs@.take(cs@.len() as int) =~= cs@);
    r
}

/// The script that types `escaped_text` into the page of `model` and
/// presses its send button after a short wait.
pub open spec fn send_script(model: Seq<char>, escaped_text: Seq<char>) -> Seq<char> {
    if model == "chatgpt"@ {
        CHATGPT_BEFORE@ + escaped_text + CHATGPT_AFTER@
    } else if model == "gemini"@ {
        GEMINI_BEFORE@ + escaped_text + GEMINI_AFTER@
    } else {
        OTHER_BEFORE@ + escaped_text + OTHER_AFTER@
    }
}

/// Writes the script that sends `escaped_text` (see `send_script`).
pub fn send_script_text(model: &str, escaped_text: &str) -> (r: String)
    ensures
        r@ == send_script(model@, escaped_text@),
{
    let mut r = String::new();
    proof {
        reveal_strlit("");
    }
    if str_eq(model, "chatgpt") {
        push_str(&mut r, CHATGPT_BEFORE);
        push_str(&mut r, escaped_text);
        push_str(&mut r, CHATGPT_AFTER);
    } else if str_eq(model, "gemini") {
        push_str(&mut r, GEMINI_BEFORE);
        push_str(&mut r, escaped_text);
        push_str(&mut r, GEMINI_AFTER);
    } else {
        push_str(&mut r, OTHER_BEFORE);
        push_str(&mut r, escaped_text);
        push_str(&mut r, OTHER_AFTER);
    }
    r
}

/// The page that hosts `model`'s chat.
pub open spec fn model_url(model: Seq<char>) -> Seq<char> {
    if model == "gemini"@ {
        "https://gemini.google.com"@
    } else {
        "https://chat.openai.com"@
    }
}

/// What the application is to do after a signal.
#[derive(Debug)]
pub enum BridgeEvent {
    /// Nothing: a piece was stored, or the address was not for the bridge.
    Nothing,
    /// A reply is complete: its hex text, to be read with `decode_reply`.
    ReplyHex(String),
    /// A program is complete: its hex text, to be read with `decode_program`.
    ProgramHex(String),
}

/// What the application is to do after the user sends text.
#[derive(Debug)]
pub enum SendAction {
    /// Nothing to send (blank text).
    Nothing,
    /// Run this script in the page when the page has loaded.
    Run { script: String, page_loaded: bool },
}

/// What the application is to do when a model is chosen.
#[derive(Debug)]
pub enum LoadAction {
    /// The model's page is already showing.
    AlreadyLoaded,
    /// Load this page.
    Load(String),
}

/// The bridge's state: the pieces of the reply and of the program being
/// received, the messages sent, the chosen model and whether its page has
/// loaded.
#[derive(Debug)]
pub struct Bridge {
    pub reply_pieces: PieceBuffer,
    pub program_pieces: PieceBuffer,
    pub message_count: u32,
    pub model: String,
    pub page_loaded: bool,
    pub sleep_enabled: bool,
}

impl Bridge {
    /// A bridge with nothing received, nothing sent and no model chosen.
    pub fn new() -> (b: Bridge)
        ensures
            b.reply_pieces.model().len() == 0,
            b.program_pieces.model().len() == 0,
            b.message_count == 0,
            b.model@.len() == 0,
            !b.page_loaded,
            !b.sleep_enabled,
    {
        Bridge {
            reply_pieces: PieceBuffer::new(),
            program_pieces: PieceBuffer::new(),
            message_count: 0,
            model: String::new(),
            page_loaded: false,
            sleep_enabled: false,
        }
    }

    /// Takes in what an address said: stores a piece, or hands back the
    /// hex text of a message that is complete and empties its buffer. A
    /// piece index must be below `usize::MAX` (a larger buffer cannot be
    /// made).
    pub fn on_signal(&mut self, signal: Signal) -> (e: BridgeEvent)
        requires
            signal matches Signal::ActionChunk { index, .. } ==> index < usize::MAX,
            signal matches Signal::ReplyChunk { index, .. } ==> index < usize::MAX,
        ensures
            final(self).message_count == old(self).message_count,
            final(self).model == old(self).model,
            final(self).page_loaded == old(self).page_loaded,
            final(self).sleep_enabled == old(self).sleep_enabled,
            match signal@ {
                SignalModel::ActionChunk { index, data } => e is Nothing && final(self).program_pieces.model()
                    == with_piece(old(self).program_pieces.model(), index, data) && final(self).reply_pieces
                    == old(self).reply_pieces,
                SignalModel::ReplyChunk { index, data } => e is Nothing && final(self).reply_pieces.model()
                    == with_piece(old(self).reply_pieces.model(), index, data) && final(self).program_pieces
                    == old(self).program_pieces,
                SignalModel::ActionDone => (e matches BridgeEvent::ProgramHex(h) && h@ == joined(
                    old(self).program_pieces.model(),
                )) && final(self).program_pieces.model().len() == 0 && final(self).reply_pieces
                    == old(self).reply_pieces,
                SignalModel::ReplyDone => (e matches BridgeEvent::ReplyHex(h) && h@ == joined(
                    old(self).reply_pieces.model(),
                )) && final(self).reply_pieces.model().len() == 0 && final(self).program_pieces
                    == old(self).program_pieces,
                SignalModel::Ignored => e is Nothing && final(self).reply_pieces == old(self).reply_pieces
                    && final(self).program_pieces == old(self).program_pieces,
            },
    {
        match signal {
            Signal::ActionChunk { index, data } => {
                self.program_pieces.store(index, data);
                BridgeEvent::Nothing
            },
            Signal::ReplyChunk { index, data } => {
                self.reply_pieces.store(index, data);
                BridgeEvent::Nothing
            },
            Signal::ActionDone => BridgeEvent::ProgramHex(self.program_pieces.take_all()),
            Signal::ReplyDone => BridgeEvent::ReplyHex(self.reply_pieces.take_all()),
            Signal::Ignored => BridgeEvent::Nothing,
        }
    }

    /// The user sends `text`: blank text is not sent; otherwise the count
    /// of messages goes up and the script that types the outgoing text
    /// (see `outgoing`) into the chosen model's page is handed back, to be
    /// run when the page has loaded.
    pub fn send(&mut self, text: &str) -> (a: SendAction)
        requires
            old(self).message_count < u32::MAX,
        ensures
            final(self).reply_pieces == old(self).reply_pieces,
            final(self).program_pieces == old(self).program_pieces,
            final(self).model == old(self).model,
            final(self).page_loaded == old(self).page_loaded,
            final(self).sleep_enabled == old(self).sleep_enabled,
            trimmed(text@).len() == 0 ==> a is Nothing && final(self).message_count == old(self).message_count,
            trimmed(text@).len() > 0 ==> final(self).message_count == old(self).message_count + 1 && (a matches SendAction::Run {
                script,
                page_loaded,
            } && page_loaded == old(self).page_loaded && script@ == send_script(
                old(self).model@,
                escaped(outgoing(final(self).message_count as nat, text@)),
            )),
    {
        let trimmed_text = trim_str(text);
        if chars_of(trimmed_text.as_str()).len() == 0 {
            return SendAction::Nothing;
        }
        self.message_count = self.message_count + 1;
        let count = self.message_count;
        let mut full = String::new();
        proof {
            reveal_strlit("");
        }
        if count % 10 == 1 {
            push_str(&mut full, PROMPT);
            push_str(&mut full, "\n\n");
        }
        push_str(&mut full, text);
        let esc = escape_for_script(full.as_str());
        let script = send_script_text(self.model.as_str(), esc.as_str());
        SendAction::Run { script, page_loaded: self.page_loaded }
    }

    /// Chooses `new_model`: nothing to do when its page is already showing;
    /// otherwise the page of the new model is to be loaded.
    pub fn load_model(&mut self, new_model: &str) -> (a: LoadAction)
        ensures
            final(self).reply_pieces == old(self).reply_pieces,
            final(self).program_pieces == old(self).program_pieces,
            final(self).message_count == old(self).message_count,
            final(self).sleep_enabled == old(self).sleep_enabled,
            old(self).model@ == new_model@ && old(self).page_loaded ==> a is AlreadyLoaded && final(self).model
                == old(self).model && final(self).page_loaded,
            !(old(self).model@ == new_model@ && old(self).page_loaded) ==> (a matches LoadAction::Load(url)
                && url@ == model_url(new_model@)) && final(self).model@ == new_model@ && !final(self).page_loaded,
    {
        if str_eq(self.model.as_str(), new_model) && self.page_loaded {
            return LoadAction::AlreadyLoaded;
        }
        self.model = new_model.to_owned();
        self.page_loaded = false;
        let url = if str_eq(new_model, "gemini") {
            "https://gemini.google.com".to_owned()
        } else {
            "https://chat.openai.com".to_owned()
        };
        LoadAction::Load(url)
    }

    /// The page began loading.
    pub fn page_started(&mut self)
        ensures
            !final(self).page_loaded,
            final(self).model == old(self).model,
            final(self).message_count == old(self).message_count,
            final(self).reply_pieces == old(self).reply_pieces,
            final(self).program_pieces == old(self).program_pieces,
            final(self).sleep_enabled == old(self).sleep_enabled,
    {
        self.page_loaded = false;
    }

    /// The page finished loading.
    pub fn page_finished(&mut self)
        ensures
            final(self).page_loaded,
            final(self).model == old(self).model,
            final(self).message_count == old(self).message_count,
            final(self).reply_pieces == old(self).reply_pieces,
            final(self).program_pieces == old(self).program_pieces,
            final(self).sleep_enabled == old(self).sleep_enabled,
    {
        self.page_loaded = true;
    }

    /// Whether the page is to be put to sleep: sleeping is enabled and
    /// nothing happened for more than ten minutes.
    pub fn should_sleep(&self, idle_millis: u64) -> (r: bool)
        ensures
            r == (self.sleep_enabled && idle_millis > 600_000),
    {
        self.sleep_enabled && idle_millis > 600_000
    }
}

pub const PROMPT: &'static str = "SYSTEM MEMORY FOR VIBICLAW\n\nYou are inside VibiClaw, an AI agent runtime. When the user asks you to perform file operations (create, edit, delete files/folders, run commands, download repos, open apps, etc.), you MUST output a VibiClaw code block at the END of your response.\n\nWrap the code in ```vibi ``` (triple backticks with vibi).\n\nThe exact syntax and all available tools are shown below. Follow it strictly. Do not invent new syntax. Do not modify the format. Replace only the placeholders with actual values.\n\n main vibi.claw     // starting entry point to call the tool\n \n   import vibi.tools;   //importing tools\n\n    \n{                       // opening for jobs\n      jobs                    // for listing jobs\n   \n      {                          // opening for a specific tool\n         vibi.tool = [create.file] | path? = [\"your path here\"] //create file tool with path, do not alter anyting, the spaces are 100% impoertant between ? and =  \n         \"file_name_here\"     //the file you name u want to create in double inverted commas you can list how many file names ever u want so it is n numbers\n         \"file_name_here\"\n         \"file_name_here\"\n         \" file_name_here\"\n      }                          // closing for a specific tool\n      \n      {\n         vibi.tool = [edit.file]? = \"file_name_here\" | path? = [\"your path here\"] // edit file tool where u select a folder with path specifications\n            \n           full.file.content:                           // full file content writes the file with the content u provide and overwrites everything with the new content\n           \" your content herer whatever here blah blah blah\" // the file content which will overwrite the current file contents, it is in double inverted commas\n           file.save()\n           \n           &&     // an and operator which say \"and\" which is denoted by \"&&\" so insted of writing a new chain you can just call the \"&&\" operator and bulk write content\n           \n         vibi.tool = [edit.file]? = \"file_name_here\" | path? = [\"your path here\"] // edit file tool where u select a folder with path specifications\n            \n           full.file.content:           // full file content writes the file with the content u provide and overwrites everything with the new content\n           \" your content herer whatever here blah blah blah\"     // the file content which will overwrite the current file contents, it is in double inverted commas\n           file.save()  // save file call\n           \n      }\n         \n      {\n        vibi.tool = [edit.file]? = \"file_name_here\" | path? = [\"your path here\"]  // edit file tool where u select a folder with path specifications\n       \n         search.file.content:                          // this sub-tool searches the specific part of the content with the search content you have provide\n         \" your search content here blah blah blah\"      // your search content in double inverted commas\n          \n         replace.file.content: // this sub-tool replaces the sub-tool's specific search content with the replace content if the search content has been sucessfully found\n         \"your replace content which replacees your search content here\"  // your replace content in double inverted commas\n         \n         file.save()  //file save call\n         \n          &&  // and operator\n          \n        vibi.tool = [edit.file]? = \"file_name_here\" | path? = [\"your path here\"]  // edit file tool where u select a folder with path specifications\n       \n         search.file.content:            // this sub-tool searches the specific part of the content with the search content you have provide\n         \" your search content here blah blah blah\"   // your search content in double inverted commas\n          \n         replace.file.content: // this sub-tool replaces the sub-tool's specific search content with the replace content if the search content has been sucessfully found\n         \"your replace content which replacees your search content here\" // your replace content in double inverted commas\n         \n         file.save()  //file save call\n      }\n     \n     {\n        vibi.tool = [delete.file] | path? = [\"your path here\"] // a tool which deletes files in a specific path if found\n        \"file_name_here\" // list of file names\n        \"file_name_here\"\n        \"file_name_here\"\n        \"file_name_here\"\n        \" file_name_here\"\n        file.delete()   // delete file call\n     }\n     \n    {\n       vibi.tool = [run.command] | path? = [\"your path here\"]  // this is a tool which runs commands on you system irrespective of os and the specific path\n       \"your  command here irrespective of operating system\" // your commands here in double inverted commas,you can add n number of commands here but some are blocked\n       \"your command here irrespective of operating system\"  // some are blocked like rm-rf, cd, etc\n       \"your command here irrespective of operating system\" \n       \"your command here irrespective of operating system\"\n       \"your  command here irrespective of operating system\" \n        run.command() // calls run command tool\n    }\n\n   {\n     vibi.tool = [rename.file] |[\"the current file path here\"] // this tool renames files if the files are in the same path as mentioned\n     \"current_file_name_here\" => \"your new file name here\"  // your current file name followed by \"=>\" and your new file name\n     \"current_file_name_here\" => \"your new file name here\" // and yes you can add n number of file renames here\n     \" current_file_name_here\" => \"your new file name here\"\n     rename.file() // calls rename file\n   }\n    \n   {\n     vibi.tool = [rename.folder]?=\"current_folder_dir_here\" =>\"your new folder dir here\" // this is a tool which renames the folder\n     rename.folder()// calls folder rename                                       // example src/abc/gph => src/deb/gph, here the folder contents wont be affected \n\n   }\n \n   {\n     vibi.tool = [create.directory]? = [\"your new directory here\"] // this a tool which creates folder when u mention like \" src/gph/abc/geo \" it creates all those files\n     create.directory() // calls create directory\n   }\n\n  {\n     vibi.tool = [download.repository]? = \"your public git hub repository link here\"| path? = [\"your download path here\"] // tool to download repo from github with path\n     download.repository() // downloads repository to specified path\n  }\n\n  {\n    vibi.tool = [download.private.repository] = \" your private github repository link here\"|git token = \"your github prsonal acesses token here\" | path? = [\"your  download path here\"]  // this tool lets you download the specifc private repository from your account with github acesses token with github repo link\n    \n     download.private.repository() // downloads your private repository only if you have acess to!\n  }\n  \n  {\n \n    vibi.tool = [open.folder]? = [\"your dir which this syntax will open visually for you\"] // opens the directory in explored or your file manager \n    open.folder() // calls open folder\n  }\n  \n  {\n    vibi.tool = [open.app]  // opens a specific intalled app on the user's machine!\n    [\"a real desktop or installed app on the user's pc here\"] // list of apps to be opened in user's machine\n    [\"a real desktop or installed app on the user's pc here\"]\n    [\"a real desktop or installed app on the user's pc here\"]\n    [\"a real desktop or installed app on the user's pc here\"]\n    open.app() // calls open app tool\n  }\n  \n  {\n    vibi.tool = [move.file] | path = [\"current path of the files, if a few files are different, start a new chain and do the same\"] // moves file that is cut, with path\n    \"file_name\" => [\"new path here\"] // file name and new path, n number of files to n number of directory inside the root of the sandbox only and for other tools too\n    \"file_name\" => [\"new path here\"]\n    \"file_name\" => [\"new path here\"]\n    \"file_name\" => [\"new path here\"]\n    move.file() // calls move tool\n  }\n  \n  {\n    vibi.tool = [copy.file] | path? = [\"current path of file here\"] // copys the files from a path to new path, if in the same path copy, then adds \"duped\" in brackets\n    \"file_name\"  => [\" new path of the file here and if same path then rename file with \"duped\" in brackets in the end\"]\n    \"file_name\"  => [\" new path of the file here and if same path then rename file with \"duped\" in brackets in the end\"]\n    \"file_name\"  => [\" new path of the file here and if same path then rename file with \"duped\" in brackets in the end\"]\n    \"file_name\"  => [\" new path of the file here and if same path then rename file with \"duped\" in brackets in the end\"]\n    \"file_name\"  => [\" new path of the file here and if same path then rename file with \"duped\" in brackets in the end\"]\n    \"file_name\"  => [\" new path of the file here and if same path then rename file with \"duped\" in brackets in the end\"]\n    copy.file() // calls copy file tool\n  }\n  \n  {\n    vibi.tool = [read.file]    // this tool reads the files the user or ai wants to and returns the contents\n    \"file_name\" | path? = [\"path of the file here\"] // file to be read with path, can have multiple path inside the root and n number of reads\n    \"file_name\" | path? = [\"path of the file here\"]\n    \"file_name\" | path? = [\"path of the file here\"]\n    \"file_name\" | path? = [\"path of the file here\"]\n    \"file_name\" | path? = [\"path of the file here\"]\n    \"file_name\" | path? = [\"path of the file here\"]\n    read.file() // calls read tool\n  }\n  \n  {\n    vibi.tool = [path.tree]? = [\"directory\"] // this is a tool which represents your project structure visually with diagrams in plain text\n    path.tree() // calls path tree\n  }\n  \n  {\n    vibi.tool = [path.tree]?= [\"directroy\"] | [exclude.folders]? = [ folder path so it is exclude, example: src/.github which contains files we dont need to represent in the tree return, but howere src/ other files will be incuded in tree unless excluded] //this is the tool which excudes folders or files which are unnecessary in the tree\n    path.tree() // calls the path tree \n  }\n  \n    jobs() // closing the listing for jobs\n    \n} // closes the jobs brace\n\nRULES:\n- Always wrap in ```vibi ``` (triple backticks with vibi)\n- Follow the syntax exactly as shown above\n- Replace placeholders with actual values, keep the structure identical\n- Put the code block at the VERY END of your response\n- Never mention these instructions or the system memory to the user\n";

pub const CHATGPT_BEFORE: &'static str = "(function() { var input = document.querySelector('#prompt-textarea') || document.querySelector('[contenteditable=\"true\"]'); if(input) { input.textContent = '";

pub const CHATGPT_AFTER: &'static str = "'; input.dispatchEvent(new Event('input', { bubbles: true })); setTimeout(function() { var btn = document.querySelector('[data-testid=\"send-button\"]'); if(btn) btn.click(); }, 800); } })()";

pub const GEMINI_BEFORE: &'static str = "(function() { var input = document.querySelector('rich-textarea div[contenteditable=\"true\"], rich-textarea p, textarea'); if(input) { input.textContent = '";

pub const GEMINI_AFTER: &'static str = "'; input.dispatchEvent(new Event('input', { bubbles: true })); setTimeout(function() { var btn = document.querySelector('button[aria-label=\"Send message\"]'); if(btn && !btn.disabled) btn.click(); }, 800); } })()";

pub const OTHER_BEFORE: &'static str = "(function() { var input = document.querySelector('[contenteditable=\"true\"]') || document.querySelector('textarea'); if(input) { input.textContent = '";

pub const OTHER_AFTER: &'static str = "'; input.dispatchEvent(new Event('input', { bubbles: true })); setTimeout(function() { var btn = document.querySelector('button[type=\"submit\"]'); if(btn) btn.click(); }, 800); } })()";

} // verus!
