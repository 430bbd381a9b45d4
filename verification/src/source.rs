use vstd::prelude::*;
use vstd::utf8::*;
use vstd::string::StringSliceAdditionalSpecFns;
use crate::text::{extractable, is_extractable, substring};

verus! {

/// `arr` is sorted in non-decreasing order.
pub open spec fn sorted(arr: Seq<usize>) -> bool {
    forall|i: int, j: int| 0 <= i <= j < arr.len() ==> arr[i] <= arr[j]
}

/// `i` is a floored position of `item` in `arr`: either `arr[i]` is `item`, or `item` lies
/// strictly between `arr[i]` and the next entry (or after the last one).
pub open spec fn is_floor_index(arr: Seq<usize>, item: usize, i: int) -> bool {
    &&& 0 <= i < arr.len()
    &&& arr[i] <= item
    &&& (arr[i] == item || i + 1 == arr.len() || item < arr[i + 1])
}

/// A modified binary search that finds the exact or nearest floored index of `item`.
///
/// Items outside the range of values in the array give `None`. The array is assumed sorted;
/// otherwise only the range check and the bounds of the index are promised.
pub fn floored_binary_index(arr: &[usize], item: usize) -> (res: Option<usize>)
    requires
        arr@.len() >= 1,
        arr@.len() <= usize::MAX / 2,
    ensures
        res is None <==> (item < arr@[0] || item > arr@[arr@.len() - 1]),
        res matches Some(i) ==> i < arr@.len(),
        res matches Some(i) ==> sorted(arr@) ==> is_floor_index(arr@, item, i as int),
{
    let length = arr.len();
    if item < arr[0] || item > arr[length - 1] {
        return None;
    }
    let mut left: usize = 0;
    let mut right: usize = length - 1;
    let mut middle: usize = length / 2;
    let mut current: usize = arr[middle];
    while left <= right
        invariant
            length == arr@.len(),
            length <= usize::MAX / 2,
            arr@[0] <= item <= arr@[length - 1],
            left <= length,
            right < length,
            left <= right + 1,
            left <= right ==> left <= middle <= right,
            left > right ==> middle == right,
            current == arr@[middle as int],
            sorted(arr@) ==> forall|k: int| 0 <= k < left ==> arr@[k] < item,
            sorted(arr@) ==> forall|k: int| right < k < length ==> item < arr@[k],
            // the first entry never lies above `item`, so `right` never drops below zero
            left == 0 ==> right >= 0,
        decreases right + 1 - left,
    {
        if current < item {
            left = middle + 1;
        } else if current == item {
            return Some(middle);
        } else {
            // `current > item >= arr[0]`, so `middle` is not the first index
            right = middle - 1;
        }
        middle = (right + left) / 2;
        current = arr[middle];
    }
    Some(middle)
}


/// The bytes that start a new line: `\n`, `\r` (alone or before `\n`) and form feed.
pub open spec fn is_newline_byte(b: u8) -> bool {
    b == 10 || b == 13 || b == 12
}

/// The positions `i < n` whose byte starts a newline, in increasing order.
pub open spec fn newline_positions(bytes: Seq<u8>, n: nat) -> Seq<usize>
    decreases n,
{
    if n == 0 {
        seq![]
    } else {
        let before = newline_positions(bytes, (n - 1) as nat);
        if is_newline_byte(bytes[n - 1]) {
            before.push((n - 1) as usize)
        } else {
            before
        }
    }
}

/// The line starts recorded for a source: `0`, then every position before the last byte whose
/// byte begins a newline sequence.
pub open spec fn newline_indices_of(bytes: Seq<u8>) -> Seq<usize> {
    seq![0usize] + newline_positions(bytes, (bytes.len() - 1) as nat)
}

/// Both `j` and `j + 2` are character boundaries of `bytes`.
pub open spec fn aligned_at(bytes: Seq<u8>, j: int) -> bool {
    is_char_boundary(bytes, j) && is_char_boundary(bytes, j + 2)
}

/// Scanning the source two bytes at a time never cuts a character: the scan for line starts
/// looks at `i..i + 2` for every `i` before the last byte.
pub open spec fn scan_is_char_aligned(bytes: Seq<u8>) -> bool {
    forall|i: int|
        0 <= i < bytes.len() - 1 ==> #[trigger] is_char_boundary(bytes, i) && is_char_boundary(bytes, i + 2)
}

/// The entries of `newline_positions(bytes, n)` are strictly increasing and below `n`.
pub proof fn lemma_newline_positions(bytes: Seq<u8>, n: nat)
    requires
        n <= bytes.len(),
        bytes.len() <= usize::MAX,
    ensures
        forall|i: int, j: int|
            0 <= i < j < newline_positions(bytes, n).len() ==> newline_positions(bytes, n)[i]
                < newline_positions(bytes, n)[j],
        forall|i: int|
            0 <= i < newline_positions(bytes, n).len() ==> newline_positions(bytes, n)[i] < n,
        newline_positions(bytes, n).len() <= n,
    decreases n,
{
    if n > 0 {
        lemma_newline_positions(bytes, (n - 1) as nat);
    }
}

/// The recorded line starts are sorted, begin with `0` and lie inside the source.
pub proof fn lemma_newline_indices_sorted(bytes: Seq<u8>)
    requires
        1 <= bytes.len() <= usize::MAX / 2,
    ensures
        sorted(newline_indices_of(bytes)),
        newline_indices_of(bytes)[0] == 0,
        newline_indices_of(bytes).len() <= bytes.len(),
        forall|i: int|
            0 <= i < newline_indices_of(bytes).len() ==> newline_indices_of(bytes)[i]
                < bytes.len(),
        forall|i: int, j: int|
            1 <= i < j < newline_indices_of(bytes).len() ==> newline_indices_of(bytes)[i]
                < newline_indices_of(bytes)[j],
{
    let n = (bytes.len() - 1) as nat;
    lemma_newline_positions(bytes, n);
    let p = newline_positions(bytes, n);
    let all = newline_indices_of(bytes);
    assert forall|i: int, j: int| 0 <= i <= j < all.len() implies all[i] <= all[j] by {
        if i > 0 && i < j {
            assert(all[i] == p[i - 1] && all[j] == p[j - 1]);
        }
    }
    assert forall|i: int| 0 <= i < all.len() implies all[i] < bytes.len() by {
        if i > 0 {
            assert(all[i] == p[i - 1]);
        }
    }
    assert forall|i: int, j: int| 1 <= i < j < all.len() implies all[i] < all[j] by {
        assert(all[i] == p[i - 1] && all[j] == p[j - 1]);
    }
}

/// Where line `line` (counted from 1) starts, for a source whose recorded newline entries are
/// `nl`: at `0` for the first line, just past the byte that ends the line before for the others.
pub open spec fn line_start(nl: Seq<usize>, line: int) -> int {
    if line <= 1 {
        0
    } else {
        nl[line - 1] + 1
    }
}

/// `line` and `column` are the line and column of byte position `idx`, both counted from 1, in a
/// source whose recorded newline entries are `nl`: the line is the last one that starts at or
/// before `idx` (a newline byte belongs to the line it ends), and the first byte of every line is
/// column 1.
pub open spec fn is_line_column(nl: Seq<usize>, idx: int, line: int, column: int) -> bool {
    &&& 1 <= line <= nl.len()
    &&& line_start(nl, line) <= idx
    &&& line < nl.len() ==> idx < line_start(nl, line + 1)
    &&& column == idx - line_start(nl, line) + 1
}

/// The text of a stylesheet or selector together with the positions where its lines start.
#[derive(Debug)]
pub struct SourceInfo {
    source: String,
    newline_indices: Vec<usize>,
}

/// A position in a source, with its 1-based line and column.
#[derive(Debug, Clone, Copy)]
pub struct SourceLocation<'a> {
    pub source_info: &'a SourceInfo,
    pub idx: usize,
    /// starts at 1
    pub line: usize,
    /// starts at 1
    pub column: usize,
}

/// The part of a source between two locations.
#[derive(Debug, Clone, Copy)]
pub struct SourceSlice<'a> {
    pub source_info: &'a SourceInfo,
    pub start: SourceLocation<'a>,
    pub end: SourceLocation<'a>,
}

impl SourceInfo {
    #[verifier::type_invariant]
    spec fn inv(self) -> bool {
        &&& 1 <= self.spec_bytes().len() <= usize::MAX / 2
        &&& self.newline_indices@ == self.spec_newlines()
    }

    /// The characters of the source.
    pub closed spec fn spec_text(&self) -> Seq<char> {
        self.source@
    }

    /// The UTF-8 bytes of the source; positions in a source count these bytes.
    pub open spec fn spec_bytes(&self) -> Seq<u8> {
        encode_utf8(self.spec_text())
    }

    /// The positions where lines start.
    pub open spec fn spec_newlines(&self) -> Seq<usize> {
        newline_indices_of(self.spec_bytes())
    }

    /// Whether `new` accepts `source`: it is not empty, not too long, and scanning it two bytes
    /// at a time never cuts a character.
    #[verifier::spinoff_prover]
    pub fn accepts(source: &str) -> (r: bool)
        ensures
            r == (1 <= source.spec_bytes().len() <= usize::MAX / 2 && scan_is_char_aligned(
                source.spec_bytes(),
            )),
    {
        let len = source.as_bytes().len();
        if len < 1 || len > usize::MAX / 2 {
            return false;
        }
        let ghost bytes = source.spec_bytes();
        let mut i: usize = 0;
        while i < len - 1
            invariant
                bytes == source.spec_bytes(),
                len == bytes.len(),
                1 <= len <= usize::MAX / 2,
                i <= len - 1,
                forall|j: int| 0 <= j < i ==> #[trigger] aligned_at(bytes, j),
            decreases len - 1 - i,
        {
            let here = source.is_char_boundary(i);
            let after = source.is_char_boundary(i + 2);
            if !here || !after {
                return false;
            }
            assert(aligned_at(bytes, i as int));
            i += 1;
        }
        assert forall|j: int| 0 <= j < bytes.len() - 1 implies #[trigger] is_char_boundary(bytes, j)
            && is_char_boundary(bytes, j + 2) by {
            assert(aligned_at(bytes, j));
        }
        assert(scan_is_char_aligned(bytes));
        assert(1 <= bytes.len() <= usize::MAX / 2);
        true
    }

    /// Records `source` when `new` accepts it.
    pub fn try_new(source: &str) -> (r: Option<SourceInfo>)
        ensures
            r is Some <==> (1 <= source.spec_bytes().len() <= usize::MAX / 2 && scan_is_char_aligned(
                source.spec_bytes(),
            )),
            r matches Some(info) ==> info.spec_text() == source@,
    {
        if Self::accepts(source) {
            Some(Self::new(source))
        } else {
            None
        }
    }

    /// Records `source` and the positions at which its lines start.
    pub fn new(source: &str) -> (r: SourceInfo)
        requires
            1 <= source.spec_bytes().len() <= usize::MAX / 2,
            scan_is_char_aligned(source.spec_bytes()),
        ensures
            r.spec_text() == source@,
    {
        let bytes = source.as_bytes();
        let len = bytes.len();
        let mut newline_indices: Vec<usize> = Vec::new();
        newline_indices.push(0);
        let mut i: usize = 0;
        while i < len - 1
            invariant
                bytes@ == source.spec_bytes(),
                len == bytes@.len(),
                1 <= len,
                i <= len - 1,
                newline_indices@ == seq![0usize] + newline_positions(bytes@, i as nat),
            decreases len - 1 - i,
        {
            let b = bytes[i];
            if b == 10 || b == 13 || b == 12 {
                newline_indices.push(i);
            }
            i += 1;
            assert(newline_indices@ =~= seq![0usize] + newline_positions(bytes@, i as nat));
        }
        SourceInfo { source: source.to_owned(), newline_indices }
    }

    /// The line and column of byte position `idx`, which may lie past the source's end. On a
    /// source of one line, the largest position is left out: its column would not fit.
    pub fn location_from_idx<'a>(&'a self, idx: usize) -> (r: SourceLocation<'a>)
        requires
            idx < usize::MAX || self.spec_newlines().len() > 1,
        ensures
            r.source_info == self,
            r.idx == idx,
            r.placed(),
    {
        proof {
            use_type_invariant(self);
            lemma_newline_indices_sorted(self.spec_bytes());
        }
        let ghost nl = self.spec_newlines();
        let count = self.newline_indices.len();
        let line: usize = if idx == 0 {
            1
        } else {
            // the line holds `idx` when the byte before `idx` lies on or after its newline entry
            let before = idx - 1;
            let found = floored_binary_index(self.newline_indices.as_slice(), before);
            let mut k: usize = match found {
                Some(x) => x,
                None => count - 1,
            };
            if k + 1 < count && self.newline_indices[k + 1] <= before {
                k = k + 1;
            }
            proof {
                assert(nl[k as int] <= before);
                assert(k + 1 < count ==> before < nl[k + 1]);
            }
            k + 1
        };
        let start = if line == 1 {
            0
        } else {
            self.newline_indices[line - 1] + 1
        };
        proof {
            if line == 1 && count > 1 {
                assert(idx < nl[1] + 1);
            }
        }
        let column = idx - start + 1;
        let r = SourceLocation { source_info: self, idx, line, column };
        assert(is_line_column(nl, idx as int, line as int, column as int));
        r
    }
}

/// Positions further on lie on the same line or a later one; every line and column is at least
/// 1, and there are no more lines than recorded line starts.
pub proof fn lemma_later_positions_later_lines<'a>(a: SourceLocation<'a>, b: SourceLocation<'a>)
    requires
        1 <= a.source_info.spec_bytes().len() <= usize::MAX / 2,
        a.source_info == b.source_info,
        a.placed(),
        b.placed(),
        a.idx <= b.idx,
    ensures
        a.line <= b.line,
        a.line >= 1,
        a.column >= 1,
        a.line <= a.source_info.spec_newlines().len(),
{
    let nl = a.source_info.spec_newlines();
    lemma_newline_indices_sorted(a.source_info.spec_bytes());
    if a.line > b.line {
        assert(line_start(nl, b.line + 1) <= line_start(nl, a.line as int));
    }
}

impl<'a> SourceLocation<'a> {
    /// The line and column are those of the position in its source.
    pub open spec fn placed(&self) -> bool {
        is_line_column(self.source_info.spec_newlines(), self.idx as int, self.line as int, self.column as int)
    }

    /// The slice of the shared source from `self` to `other`.
    pub fn slice(&self, other: &Self) -> (r: SourceSlice<'a>)
        requires
            self.source_info == other.source_info,
        ensures
            r.source_info == self.source_info,
            r.start == *self,
            r.end == *other,
    {
        SourceSlice { source_info: self.source_info, start: *self, end: *other }
    }
}

impl<'a> SourceSlice<'a> {
    /// The slice covers whole characters of its source.
    pub open spec fn wf(&self) -> bool {
        extractable(self.source_info.spec_bytes(), self.start.idx as int, self.end.idx as int)
    }

    /// The bytes the slice covers.
    pub open spec fn spec_text_bytes(&self) -> Seq<u8> {
        self.source_info.spec_bytes().subrange(self.start.idx as int, self.end.idx as int)
    }

    /// The characters the slice covers.
    pub open spec fn spec_text(&self) -> Seq<char> {
        decode_utf8(self.spec_text_bytes())
    }

    /// The slice starts and ends at locations of its own source.
    pub open spec fn coherent(&self) -> bool {
        self.start.source_info == self.source_info && self.end.source_info == self.source_info
    }

    /// The text the slice covers.
    pub fn get(&self) -> (r: &'a str)
        requires
            self.wf(),
        ensures
            r.spec_bytes() == self.spec_text_bytes(),
            r@ == self.spec_text(),
    {
        let whole: &'a str = self.source_info.source.as_str();
        let r = substring(whole, self.start.idx, self.end.idx);
        proof {
            encode_utf8_decode_utf8(r@);
        }
        r
    }

    /// The text the slice covers, as an owned string.
    pub fn to_string(&self) -> (r: String)
        requires
            self.wf(),
        ensures
            r@ == self.spec_text(),
    {
        self.get().to_owned()
    }

    /// The slice without its first `front` and last `back` bytes; `None` when that does not
    /// leave whole characters.
    pub fn trimmed(&self, front: usize, back: usize) -> (r: Option<SourceSlice<'a>>)
        requires
            self.coherent(),
        ensures
            r is Some <==> (self.start.idx + front <= self.end.idx - back && extractable(
                self.source_info.spec_bytes(),
                self.start.idx + front,
                self.end.idx - back,
            )),
            r matches Some(t) ==> {
                &&& t.wf()
                &&& t.coherent()
                &&& t.source_info == self.source_info
                &&& t.start.idx == self.start.idx + front
                &&& t.end.idx == self.end.idx - back
                &&& t.start.placed()
                &&& t.end.placed()
            },
    {
        proof {
            use_type_invariant(self.source_info);
        }
        if back > self.end.idx || front > usize::MAX - self.start.idx {
            return None;
        }
        let start = self.start.idx + front;
        let end = self.end.idx - back;
        if start > end || !is_extractable(self.source_info.source.as_str(), start, end) {
            return None;
        }
        let start_loc = self.source_info.location_from_idx(start);
        let end_loc = self.source_info.location_from_idx(end);
        Some(SourceSlice { source_info: self.source_info, start: start_loc, end: end_loc })
    }
}


/// A node of the parse tree: either a leaf or an inner node with its children.
#[derive(Debug)]
pub enum ParserTokenValue<'a, R> {
    Leaf,
    Internal(Vec<ParserToken<'a, R>>),
}

/// A node of the parse tree: the rule it matched and the source positions it spans.
#[derive(Debug)]
pub struct ParserToken<'a, R> {
    pub value: ParserTokenValue<'a, R>,
    pub rule: R,
    pub start: SourceLocation<'a>,
    pub end: SourceLocation<'a>,
}

/// One step of a depth-first walk over a parse tree: a rule starts or ends at a byte position.
#[derive(Debug, Clone, Copy)]
pub enum TokenEvent<R> {
    Start { rule: R, pos: usize },
    End { rule: R, pos: usize },
}

impl<'a, R> ParserToken<'a, R> {
    /// The children of the node (none for a leaf).
    pub open spec fn children_seq(self) -> Seq<ParserToken<'a, R>> {
        match self.value {
            ParserTokenValue::Leaf => seq![],
            ParserTokenValue::Internal(children) => children@,
        }
    }

    /// Every node spans whole characters of one source, the same for the whole tree; its start and
    /// end carry their line and column; an inner node has at least one child.
    pub open spec fn wf(self) -> bool
        decreases self,
    {
        &&& self.start.source_info == self.end.source_info
        &&& extractable(
            self.start.source_info.spec_bytes(),
            self.start.idx as int,
            self.end.idx as int,
        )
        &&& self.start.placed()
        &&& self.end.placed()
        &&& match self.value {
            ParserTokenValue::Leaf => true,
            ParserTokenValue::Internal(children) => children@.len() > 0 && forall|i: int|
                #![trigger children@[i]]
                0 <= i < children@.len() ==> children@[i].wf()
                    && children@[i].start.source_info == self.start.source_info,
        }
    }

    /// The characters this node spans.
    pub open spec fn spec_text(self) -> Seq<char> {
        self.spec_source().spec_text()
    }

    /// The slice of source this node spans.
    pub open spec fn spec_source(self) -> SourceSlice<'a> {
        SourceSlice { source_info: self.start.source_info, start: self.start, end: self.end }
    }

    /// Whether the node has no children.
    pub fn is_leaf(&self) -> (r: bool)
        ensures
            r == (self.value is Leaf),
    {
        match self.value {
            ParserTokenValue::Leaf => true,
            ParserTokenValue::Internal(_) => false,
        }
    }

    /// The slice of source this node spans.
    pub fn get_source(&self) -> (r: SourceSlice<'a>)
        requires
            self.start.source_info == self.end.source_info,
        ensures
            r == self.spec_source(),
    {
        self.start.slice(&self.end)
    }

    /// The locations where the node starts and ends.
    pub fn get_indices(&self) -> (r: (SourceLocation<'a>, SourceLocation<'a>))
        ensures
            r == (self.start, self.end),
    {
        (self.start, self.end)
    }

    /// The rule the node matched.
    pub fn get_rule(&self) -> (r: R)
        where R: Copy,
        ensures
            r == self.rule,
    {
        self.rule
    }

    /// The children of an inner node; `None` for a leaf.
    pub fn get_children(&self) -> (r: Option<&Vec<ParserToken<'a, R>>>)
        ensures
            r is None <==> self.value is Leaf,
            r matches Some(children) ==> children@ == self.children_seq(),
    {
        match &self.value {
            ParserTokenValue::Leaf => None,
            ParserTokenValue::Internal(children) => Some(children),
        }
    }
}

/// The children of a well-formed node are well formed and belong to its source.
pub proof fn lemma_children_wf<'a, R>(t: ParserToken<'a, R>)
    requires
        t.wf(),
    ensures
        forall|i: int|
            #![trigger t.children_seq()[i]]
            0 <= i < t.children_seq().len() ==> t.children_seq()[i].wf()
                && t.children_seq()[i].start.source_info == t.start.source_info
                && t.children_seq()[i].end.source_info == t.start.source_info,
{
    match t.value {
        ParserTokenValue::Leaf => {},
        ParserTokenValue::Internal(children) => {
            assert forall|i: int| 0 <= i < t.children_seq().len() implies t.children_seq()[i].wf()
                && t.children_seq()[i].start.source_info == t.start.source_info
                && t.children_seq()[i].end.source_info == t.start.source_info by {
                assert(children@[i].wf());
            }
        },
    }
}

/// A node whose start has been seen and whose end has not.
struct OpenToken<'a, R> {
    rule: R,
    start: usize,
    children: Vec<ParserToken<'a, R>>,
}

/// All `tokens` are well formed and belong to `source_info`.
pub open spec fn all_in_source<'a, R>(tokens: Seq<ParserToken<'a, R>>, source_info: &'a SourceInfo) -> bool {
    forall|i: int|
        #![trigger tokens[i]]
        0 <= i < tokens.len() ==> tokens[i].wf() && tokens[i].start.source_info == source_info
}

/// Closes a node spanning `start..end`; `None` when the span does not cover whole characters.
fn close_token<'a, R>(
    source_info: &'a SourceInfo,
    rule: R,
    start: usize,
    end: usize,
    children: Vec<ParserToken<'a, R>>,
) -> (r: Option<ParserToken<'a, R>>)
    requires
        all_in_source(children@, source_info),
    ensures
        r is None <==> !extractable(source_info.spec_bytes(), start as int, end as int),
        r matches Some(t) ==> {
            &&& t.wf()
            &&& t.start.source_info == source_info
            &&& t.rule == rule
            &&& t.start.idx == start
            &&& t.end.idx == end
            &&& t.children_seq() == children@
            &&& children@.len() == 0 ==> t.value is Leaf
        },
{
    proof {
        use_type_invariant(source_info);
    }
    if !is_extractable(source_info.source.as_str(), start, end) {
        return None;
    }
    let start_loc = source_info.location_from_idx(start);
    let end_loc = source_info.location_from_idx(end);
    let value = if children.len() == 0 {
        ParserTokenValue::Leaf
    } else {
        ParserTokenValue::Internal(children)
    };
    let token = ParserToken { value, rule, start: start_loc, end: end_loc };
    assert(token.children_seq() =~= children@);
    assert(extractable(source_info.spec_bytes(), start as int, end as int));
    assert(token.start.source_info == source_info);
    assert(token.end.source_info == source_info);
    assert(token.start.idx == start);
    assert(token.end.idx == end);
    assert(extractable(token.start.source_info.spec_bytes(), token.start.idx as int, token.end.idx as int));
    assert(token.wf());
    Some(token)
}

/// The depth-first walk of the tree `t`: its start, the walks of its children one after another,
/// then its end.
pub open spec fn walk<'a, R>(t: ParserToken<'a, R>) -> Seq<TokenEvent<R>>
    decreases t, 1nat, 0int,
{
    seq![TokenEvent::Start { rule: t.rule, pos: t.start.idx }] + children_walk(
        t,
        t.children_seq().len() as int,
    ) + seq![TokenEvent::End { rule: t.rule, pos: t.end.idx }]
}

/// The walks of the first `k` children of `t`, one after another.
pub open spec fn children_walk<'a, R>(t: ParserToken<'a, R>, k: int) -> Seq<TokenEvent<R>>
    decreases t, 0nat, k,
{
    match t.value {
        ParserTokenValue::Internal(children) => if k <= 0 || k > children@.len() {
            Seq::empty()
        } else {
            children_walk(t, k - 1) + walk(children@[k - 1])
        },
        ParserTokenValue::Leaf => Seq::empty(),
    }
}

/// The walks of the trees `ts`, one after another.
pub open spec fn trees_walk<'a, R>(ts: Seq<ParserToken<'a, R>>) -> Seq<TokenEvent<R>>
    decreases ts.len(),
{
    if ts.len() == 0 {
        Seq::empty()
    } else {
        trees_walk(ts.drop_last()) + walk(ts.last())
    }
}

/// The walks of a node's first `k` children are those of the first `k` trees among its children.
proof fn lemma_children_walk<'a, R>(t: ParserToken<'a, R>, k: int)
    requires
        0 <= k <= t.children_seq().len(),
    ensures
        children_walk(t, k) == trees_walk(t.children_seq().take(k)),
    decreases k,
{
    if k > 0 {
        lemma_children_walk(t, k - 1);
        assert(t.children_seq().take(k).drop_last() =~= t.children_seq().take(k - 1));
    } else {
        assert(t.children_seq().take(0) =~= Seq::<ParserToken<'a, R>>::empty());
    }
}

/// The walks of a node's first `k` children begin the walks of its first `m` children.
proof fn lemma_children_walk_prefix<'a, R>(t: ParserToken<'a, R>, k: int, m: int)
    requires
        0 <= k <= m <= t.children_seq().len(),
    ensures
        children_walk(t, k).len() <= children_walk(t, m).len(),
        children_walk(t, m).subrange(0, children_walk(t, k).len() as int) == children_walk(t, k),
    decreases m - k,
{
    if k < m {
        lemma_children_walk_prefix(t, k, m - 1);
        assert(children_walk(t, m) == children_walk(t, m - 1) + walk(t.children_seq()[m - 1]));
        assert(children_walk(t, m).subrange(0, children_walk(t, k).len() as int) =~= children_walk(
            t,
            m - 1,
        ).subrange(0, children_walk(t, k).len() as int));
    } else {
        assert(children_walk(t, m).subrange(0, children_walk(t, m).len() as int) =~= children_walk(t, m));
    }
}

/// The tree `t` belongs to `source_info` and its walk stands in `events` from `i` on.
pub open spec fn walk_at<'a, R>(
    source_info: &'a SourceInfo,
    events: Seq<TokenEvent<R>>,
    i: int,
    t: ParserToken<'a, R>,
) -> bool {
    &&& t.wf()
    &&& t.start.source_info == source_info
    &&& 0 <= i
    &&& i + walk(t).len() <= events.len()
    &&& events.subrange(i, i + walk(t).len()) == walk(t)
}

/// Where the walk of `t` stands from `i` on in `events`, the walk of its `k`-th child stands
/// just after those of the children before it.
proof fn lemma_walk_child<'a, R>(
    source_info: &'a SourceInfo,
    events: Seq<TokenEvent<R>>,
    i: int,
    t: ParserToken<'a, R>,
    k: int,
)
    requires
        walk_at(source_info, events, i, t),
        0 <= k < t.children_seq().len(),
    ensures
        walk_at(source_info, events, i + 1 + children_walk(t, k).len(), t.children_seq()[k]),
        children_walk(t, k + 1) == children_walk(t, k) + walk(t.children_seq()[k]),
{
    lemma_children_wf(t);
    let n = t.children_seq().len() as int;
    let c = t.children_seq()[k];
    lemma_children_walk_prefix(t, k + 1, n);
    assert(children_walk(t, k + 1) == children_walk(t, k) + walk(c));
    let a = children_walk(t, k).len() as int;
    let w = walk(c).len() as int;
    let whole = walk(t);
    assert(whole.subrange(1 + a, 1 + a + w) =~= walk(c)) by {
        assert forall|x: int| 0 <= x < w implies whole.subrange(1 + a, 1 + a + w)[x] == walk(c)[x] by {
            assert(whole[1 + a + x] == children_walk(t, n)[a + x]);
            assert(children_walk(t, n)[a + x] == children_walk(t, k + 1)[a + x]);
        }
    }
    assert(events.subrange(i + 1 + a, i + 1 + a + w) =~= whole.subrange(1 + a, 1 + a + w));
}

/// Where the walk of `t` stands from `i` on in `events`, its end follows the walks of all its
/// children.
proof fn lemma_walk_end<'a, R>(
    source_info: &'a SourceInfo,
    events: Seq<TokenEvent<R>>,
    i: int,
    t: ParserToken<'a, R>,
)
    requires
        walk_at(source_info, events, i, t),
    ensures
        events[i + 1 + children_walk(t, t.children_seq().len() as int).len()] == (TokenEvent::End {
            rule: t.rule,
            pos: t.end.idx,
        }),
        events[i] == (TokenEvent::Start { rule: t.rule, pos: t.start.idx }),
        walk(t).len() == 2 + children_walk(t, t.children_seq().len() as int).len(),
{
    let a = children_walk(t, t.children_seq().len() as int).len() as int;
    assert(events[i + 1 + a] == events.subrange(i, i + walk(t).len())[1 + a]);
    assert(events[i] == events.subrange(i, i + walk(t).len())[0]);
}

/// The walk of a forest is the walk of its first tree, then that of the others.
proof fn lemma_trees_walk_front<'a, R>(ts: Seq<ParserToken<'a, R>>)
    requires
        ts.len() > 0,
    ensures
        trees_walk(ts) == walk(ts[0]) + trees_walk(ts.skip(1)),
    decreases ts.len(),
{
    if ts.len() == 1 {
        assert(ts.drop_last() =~= Seq::<ParserToken<'a, R>>::empty());
        assert(ts.skip(1) =~= Seq::<ParserToken<'a, R>>::empty());
        assert(walk(ts[0]) + Seq::<TokenEvent<R>>::empty() =~= walk(ts[0]));
    } else {
        lemma_trees_walk_front(ts.drop_last());
        assert(ts.drop_last()[0] == ts[0]);
        assert(ts.skip(1).drop_last() =~= ts.drop_last().skip(1));
        assert(ts.skip(1).last() == ts.last());
        assert(trees_walk(ts) =~= walk(ts[0]) + trees_walk(ts.skip(1)));
    }
}

/// The walk of the first `m + 1` trees of a forest is that of the first `m`, then that of the
/// next one.
proof fn lemma_trees_walk_take<'a, R>(ts: Seq<ParserToken<'a, R>>, m: int)
    requires
        0 <= m < ts.len(),
    ensures
        trees_walk(ts.take(m + 1)) == trees_walk(ts.take(m)) + walk(ts[m]),
{
    assert(ts.take(m + 1).drop_last() =~= ts.take(m));
    assert(ts.take(m + 1).last() == ts[m]);
}

/// The trees `ts` belong to `source_info` and their walks, one after another, stand in `events`
/// from `i` on.
pub open spec fn forest_at<'a, R>(
    source_info: &'a SourceInfo,
    events: Seq<TokenEvent<R>>,
    i: int,
    ts: Seq<ParserToken<'a, R>>,
) -> bool {
    &&& forall|k: int| 0 <= k < ts.len() ==> (#[trigger] ts[k]).wf() && ts[k].start.source_info == source_info
    &&& 0 <= i
    &&& i + trees_walk(ts).len() <= events.len()
    &&& events.subrange(i, i + trees_walk(ts).len()) == trees_walk(ts)
}

/// Where the walks of `ts` stand from `i` on, the walk of the tree after the first `m` stands
/// just after theirs.
proof fn lemma_forest_next<'a, R>(
    source_info: &'a SourceInfo,
    events: Seq<TokenEvent<R>>,
    i: int,
    ts: Seq<ParserToken<'a, R>>,
    m: int,
)
    requires
        forest_at(source_info, events, i, ts),
        0 <= m < ts.len(),
    ensures
        walk_at(source_info, events, i + trees_walk(ts.take(m)).len(), ts[m]),
        trees_walk(ts.take(m)).len() + walk(ts[m]).len() <= trees_walk(ts).len(),
    decreases ts.len(),
{
    lemma_trees_walk_take(ts, m);
    let a = trees_walk(ts.take(m)).len() as int;
    let w = walk(ts[m]).len() as int;
    let whole = trees_walk(ts);
    if m + 1 < ts.len() {
        assert(ts.drop_last().take(m + 1) =~= ts.take(m + 1));
        assert(ts.drop_last().take(m) =~= ts.take(m));
        lemma_forest_prefix(ts, m + 1);
    } else {
        assert(ts.take(m + 1) =~= ts);
    }
    assert(trees_walk(ts.take(m + 1)).len() <= whole.len());
    assert(whole.subrange(0, a + w) == trees_walk(ts.take(m + 1)));
    assert(events.subrange(i + a, i + a + w) =~= walk(ts[m])) by {
        assert forall|x: int| 0 <= x < w implies events.subrange(i + a, i + a + w)[x] == walk(ts[m])[x] by {
            assert(events[i + a + x] == whole[a + x]);
            assert(whole[a + x] == whole.subrange(0, a + w)[a + x]);
            assert(trees_walk(ts.take(m + 1))[a + x] == walk(ts[m])[x]);
        }
    }
}

/// The walk of the first `m` trees of a forest begins the walk of the forest.
proof fn lemma_forest_prefix<'a, R>(ts: Seq<ParserToken<'a, R>>, m: int)
    requires
        0 <= m <= ts.len(),
    ensures
        trees_walk(ts.take(m)).len() <= trees_walk(ts).len(),
        trees_walk(ts).subrange(0, trees_walk(ts.take(m)).len() as int) == trees_walk(ts.take(m)),
    decreases ts.len() - m,
{
    if m < ts.len() {
        lemma_forest_prefix(ts, m + 1);
        lemma_trees_walk_take(ts, m);
        let a = trees_walk(ts.take(m)).len() as int;
        assert(trees_walk(ts).subrange(0, a) =~= trees_walk(ts).subrange(
            0,
            trees_walk(ts.take(m + 1)).len() as int,
        ).subrange(0, a));
    } else {
        assert(ts.take(m) =~= ts);
        assert(trees_walk(ts).subrange(0, trees_walk(ts).len() as int) =~= trees_walk(ts));
    }
}

/// The walk `node` of a node just closed added to the node open around it (the innermost of
/// `frames`, each a rule, a start and the walks of the children closed so far), or to the walks
/// `kids` of the root's children when no node is open.
pub open spec fn attach_walk<R>(
    frames: Seq<(R, usize, Seq<TokenEvent<R>>)>,
    kids: Seq<TokenEvent<R>>,
    node: Seq<TokenEvent<R>>,
) -> (Seq<(R, usize, Seq<TokenEvent<R>>)>, Seq<TokenEvent<R>>) {
    if frames.len() == 0 {
        (frames, kids + node)
    } else {
        let top = frames.last();
        (frames.drop_last().push((top.0, top.1, top.2 + node)), kids)
    }
}

/// Reads the walk `events` from `i` on after the root's start, with the nodes `frames` open
/// (innermost last), the walks `kids` of the root's children closed so far, and `end` the root's
/// end so far. A start opens a node; an end closes the innermost open node, whatever rule it
/// names, and the node must span whole characters of `bytes`; an end with no node open sets the
/// root's end. Nodes still open when the walk runs out are dropped. The root's children's walks
/// and the root's end; `None` when a node closed does not span whole characters.
pub open spec fn source_run<R>(
    bytes: Seq<u8>,
    events: Seq<TokenEvent<R>>,
    i: int,
    frames: Seq<(R, usize, Seq<TokenEvent<R>>)>,
    kids: Seq<TokenEvent<R>>,
    end: Option<usize>,
) -> Option<(Seq<TokenEvent<R>>, Option<usize>)>
    decreases events.len() - i,
{
    if 0 <= i < events.len() {
        match events[i] {
            TokenEvent::Start { rule, pos } => source_run(
                bytes,
                events,
                i + 1,
                frames.push((rule, pos, Seq::empty())),
                kids,
                end,
            ),
            TokenEvent::End { rule: _, pos } => if frames.len() == 0 {
                source_run(bytes, events, i + 1, frames, kids, Some(pos))
            } else {
                let top = frames.last();
                if extractable(bytes, top.1 as int, pos as int) {
                    let node = seq![TokenEvent::Start { rule: top.0, pos: top.1 }] + top.2 + seq![
                        TokenEvent::End { rule: top.0, pos },
                    ];
                    let next = attach_walk(frames.drop_last(), kids, node);
                    source_run(bytes, events, i + 1, next.0, next.1, end)
                } else {
                    None
                }
            },
        }
    } else {
        Some((kids, end))
    }
}

/// The walk of the tree that `parse_source` builds from `events` over `bytes`: the first event
/// starts the root, `source_run` reads the rest, and the root ends where the last end that closes
/// no node puts it. `None` when the walk does not begin with a start, never ends the root, or a
/// node does not span whole characters.
pub open spec fn source_walk<R>(bytes: Seq<u8>, events: Seq<TokenEvent<R>>) -> Option<Seq<TokenEvent<R>>> {
    if events.len() > 0 {
        match events[0] {
            TokenEvent::Start { rule, pos } => match source_run(bytes, events, 1, Seq::empty(), Seq::empty(), None) {
                Some((kids, Some(end))) => if extractable(bytes, pos as int, end as int) {
                    Some(seq![TokenEvent::Start { rule, pos }] + kids + seq![TokenEvent::End { rule, pos: end }])
                } else {
                    None
                },
                _ => None,
            },
            TokenEvent::End { .. } => None,
        }
    } else {
        None
    }
}

/// What reading a node from its start gives: the node and the index just past its end, no end
/// before the walk runs out, or a node that does not span whole characters.
enum NodeRead<'a, R> {
    Complete(ParserToken<'a, R>, usize),
    Incomplete,
    Failed,
}

/// Reads the node that starts at `i` in `events`: the nodes that start before its end are its
/// children, and the next end closes it, whatever rule that end names.
fn read_node<'a, R: Copy>(source_info: &'a SourceInfo, events: &Vec<TokenEvent<R>>, i: usize) -> (r: NodeRead<'a, R>)
    requires
        i < events@.len(),
        events@[i as int] is Start,
    ensures
        r matches NodeRead::Complete(t, j) ==> {
            &&& i < j <= events@.len()
            &&& t.wf()
            &&& t.start.source_info == source_info
            &&& events@[i as int] == (TokenEvent::Start { rule: t.rule, pos: t.start.idx })
        },
        forall|t: ParserToken<'a, R>|
            #[trigger] walk_at(source_info, events@, i as int, t) ==> (r matches NodeRead::Complete(u, j)
                && j == i + walk(t).len() && walk(u) == walk(t)),
        forall|frames: Seq<(R, usize, Seq<TokenEvent<R>>)>, kids: Seq<TokenEvent<R>>, end: Option<usize>|
            #[trigger] source_run(source_info.spec_bytes(), events@, i as int, frames, kids, end) == match r {
                NodeRead::Complete(u, j) => {
                    let next = attach_walk(frames, kids, walk(u));
                    source_run(source_info.spec_bytes(), events@, j as int, next.0, next.1, end)
                },
                NodeRead::Incomplete => Some((kids, end)),
                NodeRead::Failed => None,
            },
    decreases events@.len() - i,
{
    let ghost bytes = source_info.spec_bytes();
    let n_events = events.len();
    let (rule, start) = match events[i] {
        TokenEvent::Start { rule, pos } => (rule, pos),
        TokenEvent::End { .. } => {
            return NodeRead::Failed;
        },
    };
    let mut children: Vec<ParserToken<'a, R>> = Vec::new();
    let mut j: usize = i + 1;
    proof {
        assert forall|frames: Seq<(R, usize, Seq<TokenEvent<R>>)>, kids: Seq<TokenEvent<R>>, end: Option<usize>|
            #[trigger] source_run(bytes, events@, i as int, frames, kids, end) == source_run(
                bytes,
                events@,
                j as int,
                frames.push((rule, start, trees_walk(children@))),
                kids,
                end,
            ) by {
            assert(trees_walk(children@) == Seq::<TokenEvent<R>>::empty());
        }
    }
    loop
        invariant_except_break
            n_events == events@.len(),
            i < j <= events@.len(),
            events@[i as int] == (TokenEvent::Start { rule, pos: start }),
            all_in_source(children@, source_info),
            forall|t: ParserToken<'a, R>|
                #[trigger] walk_at(source_info, events@, i as int, t) ==> children@.len()
                    <= t.children_seq().len() && j == i + 1 + children_walk(t, children@.len() as int).len()
                    && trees_walk(children@) == children_walk(t, children@.len() as int),
            bytes == source_info.spec_bytes(),
            forall|frames: Seq<(R, usize, Seq<TokenEvent<R>>)>, kids: Seq<TokenEvent<R>>, end: Option<usize>|
                #[trigger] source_run(bytes, events@, i as int, frames, kids, end) == source_run(
                    bytes,
                    events@,
                    j as int,
                    frames.push((rule, start, trees_walk(children@))),
                    kids,
                    end,
                ),
        ensures
            n_events == events@.len(),
            i < j < events@.len(),
            events@[i as int] == (TokenEvent::Start { rule, pos: start }),
            all_in_source(children@, source_info),
            forall|t: ParserToken<'a, R>|
                #[trigger] walk_at(source_info, events@, i as int, t) ==> children@.len()
                    == t.children_seq().len() && j == i + 1 + children_walk(t, children@.len() as int).len()
                    && trees_walk(children@) == children_walk(t, children@.len() as int),
            events@[j as int] is End,
            bytes == source_info.spec_bytes(),
            forall|frames: Seq<(R, usize, Seq<TokenEvent<R>>)>, kids: Seq<TokenEvent<R>>, end: Option<usize>|
                #[trigger] source_run(bytes, events@, i as int, frames, kids, end) == source_run(
                    bytes,
                    events@,
                    j as int,
                    frames.push((rule, start, trees_walk(children@))),
                    kids,
                    end,
                ),
        decreases events@.len() - j,
    {
        if j >= n_events {
            proof {
                assert forall|t: ParserToken<'a, R>| #[trigger] walk_at(source_info, events@, i as int, t) implies false by {
                    lemma_walk_end(source_info, events@, i as int, t);
                    lemma_children_walk_prefix(t, children@.len() as int, t.children_seq().len() as int);
                }
                assert forall|frames: Seq<(R, usize, Seq<TokenEvent<R>>)>, kids: Seq<TokenEvent<R>>, end: Option<usize>|
                    #[trigger] source_run(bytes, events@, i as int, frames, kids, end) == Some((kids, end)) by {
                    assert(source_run(bytes, events@, i as int, frames, kids, end) == source_run(
                        bytes,
                        events@,
                        j as int,
                        frames.push((rule, start, trees_walk(children@))),
                        kids,
                        end,
                    ));
                }
            }
            return NodeRead::Incomplete;
        }
        if let TokenEvent::End { .. } = events[j] {
            proof {
                assert forall|t: ParserToken<'a, R>| #[trigger] walk_at(source_info, events@, i as int, t) implies children@.len()
                    == t.children_seq().len() by {
                    if children@.len() < t.children_seq().len() {
                        lemma_walk_child(source_info, events@, i as int, t, children@.len() as int);
                        let c = t.children_seq()[children@.len() as int];
                        lemma_walk_end(source_info, events@, j as int, c);
                    }
                }
            }
            break;
        }
        let read = read_node(source_info, events, j);
        proof {
            assert forall|t: ParserToken<'a, R>| #[trigger] walk_at(source_info, events@, i as int, t) implies children@.len()
                < t.children_seq().len() && walk_at(source_info, events@, j as int, t.children_seq()[children@.len() as int])
                && children_walk(t, children@.len() + 1int) == children_walk(t, children@.len() as int) + walk(
                t.children_seq()[children@.len() as int],
            ) by {
                if children@.len() < t.children_seq().len() {
                    lemma_walk_child(source_info, events@, i as int, t, children@.len() as int);
                } else {
                    lemma_walk_end(source_info, events@, i as int, t);
                }
            }
        }
        let ghost w = trees_walk(children@);
        let (child, next) = match read {
            NodeRead::Complete(child, next) => (child, next),
            NodeRead::Incomplete => {
                proof {
                    assert forall|frames: Seq<(R, usize, Seq<TokenEvent<R>>)>, kids: Seq<TokenEvent<R>>, end: Option<usize>|
                        #[trigger] source_run(bytes, events@, i as int, frames, kids, end) == Some((kids, end)) by {
                        assert(source_run(bytes, events@, i as int, frames, kids, end) == source_run(
                            bytes,
                            events@,
                            j as int,
                            frames.push((rule, start, w)),
                            kids,
                            end,
                        ));
                    }
                }
                return NodeRead::Incomplete;
            },
            NodeRead::Failed => {
                proof {
                    assert forall|frames: Seq<(R, usize, Seq<TokenEvent<R>>)>, kids: Seq<TokenEvent<R>>, end: Option<usize>|
                        #[trigger] source_run(bytes, events@, i as int, frames, kids, end) == None::<
                            (Seq<TokenEvent<R>>, Option<usize>),
                        > by {
                        assert(source_run(bytes, events@, i as int, frames, kids, end) == source_run(
                            bytes,
                            events@,
                            j as int,
                            frames.push((rule, start, w)),
                            kids,
                            end,
                        ));
                    }
                }
                return NodeRead::Failed;
            },
        };
        let ghost before = children@;
        children.push(child);
        proof {
            assert(children@.drop_last() =~= before);
            assert(trees_walk(children@) == w + walk(child));
            assert forall|frames: Seq<(R, usize, Seq<TokenEvent<R>>)>, kids: Seq<TokenEvent<R>>, end: Option<usize>|
                #[trigger] source_run(bytes, events@, i as int, frames, kids, end) == source_run(
                    bytes,
                    events@,
                    next as int,
                    frames.push((rule, start, trees_walk(children@))),
                    kids,
                    end,
                ) by {
                let pushed = frames.push((rule, start, w));
                assert(source_run(bytes, events@, i as int, frames, kids, end) == source_run(
                    bytes,
                    events@,
                    j as int,
                    pushed,
                    kids,
                    end,
                ));
                assert(pushed.drop_last() =~= frames);
                assert(attach_walk(pushed, kids, walk(child)).0 =~= frames.push((rule, start, trees_walk(children@))));
            }
            assert forall|k: int| 0 <= k < children@.len() implies #[trigger] children@[k].wf()
                && children@[k].start.source_info == source_info by {
                if k < before.len() {
                    assert(children@[k] == before[k]);
                }
            }
        }
        j = next;
    }
    let end = match events[j] {
        TokenEvent::End { rule: _, pos } => pos,
        TokenEvent::Start { .. } => {
            return NodeRead::Failed;
        },
    };
    let ghost kids = children@;
    let token = match close_token(source_info, rule, start, end, children) {
        Some(token) => token,
        None => {
            proof {
                assert forall|t: ParserToken<'a, R>| #[trigger] walk_at(source_info, events@, i as int, t) implies false by {
                    lemma_walk_end(source_info, events@, i as int, t);
                }
                assert forall|frames: Seq<(R, usize, Seq<TokenEvent<R>>)>, kid_walks: Seq<TokenEvent<R>>, root_end: Option<usize>|
                    #[trigger] source_run(bytes, events@, i as int, frames, kid_walks, root_end) == None::<
                        (Seq<TokenEvent<R>>, Option<usize>),
                    > by {
                    assert(source_run(bytes, events@, i as int, frames, kid_walks, root_end) == source_run(
                        bytes,
                        events@,
                        j as int,
                        frames.push((rule, start, trees_walk(kids))),
                        kid_walks,
                        root_end,
                    ));
                }
            }
            return NodeRead::Failed;
        },
    };
    proof {
        lemma_children_walk(token, kids.len() as int);
        assert(kids.take(kids.len() as int) =~= kids);
        assert(walk(token) == seq![TokenEvent::Start { rule, pos: start }] + trees_walk(kids) + seq![
            TokenEvent::End { rule, pos: end },
        ]);
        assert forall|frames: Seq<(R, usize, Seq<TokenEvent<R>>)>, kid_walks: Seq<TokenEvent<R>>, root_end: Option<usize>|
            #[trigger] source_run(bytes, events@, i as int, frames, kid_walks, root_end) == ({
                let next = attach_walk(frames, kid_walks, walk(token));
                source_run(bytes, events@, j + 1, next.0, next.1, root_end)
            }) by {
            let pushed = frames.push((rule, start, trees_walk(kids)));
            assert(source_run(bytes, events@, i as int, frames, kid_walks, root_end) == source_run(
                bytes,
                events@,
                j as int,
                pushed,
                kid_walks,
                root_end,
            ));
            assert(pushed.drop_last() =~= frames);
        }
        assert forall|t: ParserToken<'a, R>| #[trigger] walk_at(source_info, events@, i as int, t) implies j + 1 == i
            + walk(t).len() && walk(token) == walk(t) by {
            lemma_walk_end(source_info, events@, i as int, t);
        }
    }
    NodeRead::Complete(token, j + 1)
}

/// The byte position an event names.
pub open spec fn event_pos<R>(e: TokenEvent<R>) -> int {
    match e {
        TokenEvent::Start { rule: _, pos } => pos as int,
        TokenEvent::End { rule: _, pos } => pos as int,
    }
}

/// The positions of the events of `w` never decrease.
pub open spec fn positions_ordered<R>(w: Seq<TokenEvent<R>>) -> bool {
    forall|i: int, j: int| 0 <= i <= j < w.len() ==> #[trigger] event_pos(w[i]) <= #[trigger] event_pos(w[j])
}

/// Every child of every node of `t` lies inside its parent's span, and the children of a node
/// follow one another in source order without overlapping.
pub open spec fn spans_nested<'a, R>(t: ParserToken<'a, R>) -> bool
    decreases t,
{
    match t.value {
        ParserTokenValue::Leaf => true,
        ParserTokenValue::Internal(children) => {
            &&& forall|k: int|
                #![trigger children@[k]]
                0 <= k < children@.len() ==> t.start.idx <= children@[k].start.idx && children@[k].end.idx
                    <= t.end.idx && spans_nested(children@[k])
            &&& forall|k: int|
                #![trigger children@[k]]
                0 <= k < children@.len() - 1 ==> children@[k].end.idx <= children@[k + 1].start.idx
        },
    }
}

/// A tree whose walk names positions in source order nests: each child lies inside its parent,
/// and siblings follow one another without overlapping. So where a parser's walk is a single
/// tree's walk in source order, the tree `parse_source` builds from it (whose walk is that walk)
/// nests.
pub proof fn lemma_ordered_walk_nests<'a, R>(t: ParserToken<'a, R>)
    requires
        t.wf(),
        positions_ordered(walk(t)),
    ensures
        spans_nested(t),
    decreases t,
{
    if let ParserTokenValue::Internal(children) = t.value {
        let si = t.start.source_info;
        let w = walk(t);
        let n = children@.len() as int;
        assert(w.subrange(0, w.len() as int) =~= w);
        assert(walk_at(si, w, 0, t));
        lemma_walk_end(si, w, 0, t);
        assert forall|k: int| #![trigger children@[k]] 0 <= k < n implies t.start.idx <= children@[k].start.idx
            && children@[k].end.idx <= t.end.idx && spans_nested(children@[k]) && (k < n - 1
            ==> children@[k].end.idx <= children@[k + 1].start.idx) by {
            let c = children@[k];
            lemma_walk_child(si, w, 0, t, k);
            let a: int = 1 + children_walk(t, k).len() as int;
            lemma_walk_end(si, w, a, c);
            lemma_children_walk_prefix(t, k + 1, n);
            let e: int = a + walk(c).len() - 1;
            assert(event_pos(w[0]) <= event_pos(w[a]));
            assert(event_pos(w[e]) <= event_pos(w[1 + children_walk(t, n).len() as int]));
            assert forall|i: int, j: int| 0 <= i <= j < walk(c).len() implies #[trigger] event_pos(walk(c)[i])
                <= #[trigger] event_pos(walk(c)[j]) by {
                assert(walk(c)[i] == w[a + i]);
                assert(walk(c)[j] == w[a + j]);
                assert(event_pos(w[a + i]) <= event_pos(w[a + j]));
            }
            lemma_children_wf(t);
            vstd::std_specs::vec::axiom_vec_index_decreases(children, k);
            lemma_ordered_walk_nests(c);
            if k < n - 1 {
                lemma_walk_child(si, w, 0, t, k + 1);
                let b: int = 1 + children_walk(t, k + 1).len() as int;
                lemma_walk_end(si, w, b, children@[k + 1]);
                assert(event_pos(w[e]) <= event_pos(w[b]));
            }
        }
    }
}

/// `t` is a tree of `source_info` whose depth-first walk is `events`.
pub open spec fn tree_of_walk<'a, R>(source_info: &'a SourceInfo, events: Seq<TokenEvent<R>>, t: ParserToken<'a, R>) -> bool {
    &&& t.wf()
    &&& t.start.source_info == source_info
    &&& walk(t) == events
}

/// A tree whose walk is all of `events` is a forest of one tree with that walk.
proof fn lemma_tree_is_forest<'a, R>(source_info: &'a SourceInfo, events: Seq<TokenEvent<R>>, t: ParserToken<'a, R>)
    requires
        tree_of_walk(source_info, events, t),
    ensures
        forest_at(source_info, events, 0, seq![t]),
        trees_walk(seq![t]).len() == events.len(),
        walk_with_trees(t, seq![t].skip(1)) == walk(t),
{
    let ts = seq![t];
    assert(ts.drop_last() =~= Seq::<ParserToken<'a, R>>::empty());
    assert(trees_walk(ts.drop_last()) == Seq::<TokenEvent<R>>::empty());
    assert(trees_walk(ts) =~= walk(t));
    assert(events.subrange(0, trees_walk(ts).len() as int) =~= events);
    assert(ts.skip(1) =~= Seq::<ParserToken<'a, R>>::empty());
    assert(walk_with_trees(t, ts.skip(1)) =~= walk(t));
}

/// The walk of `first` with the trees `rest` added after its own children.
pub open spec fn walk_with_trees<'a, R>(first: ParserToken<'a, R>, rest: Seq<ParserToken<'a, R>>) -> Seq<TokenEvent<R>> {
    seq![TokenEvent::Start { rule: first.rule, pos: first.start.idx }] + children_walk(
        first,
        first.children_seq().len() as int,
    ) + trees_walk(rest) + seq![TokenEvent::End { rule: first.rule, pos: first.end.idx }]
}

/// Builds the parse tree of `source_info` from the depth-first walk `events` of a parser.
///
/// The first event starts the root. After it, every node read from its start to the next end
/// that closes it (whatever rule that end names) becomes a child of the root; an end that closes
/// no node ends the root, the last such end counting; a node still open when the walk runs out is
/// dropped with what follows. `None` when the walk does not begin with a start, never ends the
/// root, or a node does not span whole characters of the source. So the tree of a single tree's
/// walk is that tree, and where the walk is that of several trees, the trees after the first
/// become further children of the first.
pub fn parse_source<'a, R: Copy>(source_info: &'a SourceInfo, events: &Vec<TokenEvent<R>>) -> (r:
    Option<ParserToken<'a, R>>)
    ensures
        r matches Some(t) ==> {
            &&& t.wf()
            &&& t.start.source_info == source_info
            &&& events@.len() > 0
            &&& events@[0] == (TokenEvent::Start { rule: t.rule, pos: t.start.idx })
        },
        forall|t: ParserToken<'a, R>|
            #[trigger] tree_of_walk(source_info, events@, t) ==> (r matches Some(u) && walk(u) == walk(t)),
        forall|ts: Seq<ParserToken<'a, R>>|
            ts.len() > 0 && #[trigger] forest_at(source_info, events@, 0, ts) && trees_walk(ts).len()
                == events@.len() ==> (r matches Some(u) && walk(u) == walk_with_trees(ts[0], ts.skip(1))),
        r is Some <==> source_walk(source_info.spec_bytes(), events@) is Some,
        r matches Some(u) ==> source_walk(source_info.spec_bytes(), events@) == Some(walk(u)),
{
    let ghost bytes = source_info.spec_bytes();
    proof {
        assert forall|t: ParserToken<'a, R>| #[trigger] tree_of_walk(source_info, events@, t) implies forest_at(
            source_info,
            events@,
            0,
            seq![t],
        ) && seq![t].len() > 0 && seq![t][0] == t && trees_walk(seq![t]).len() == events@.len()
            && walk_with_trees(t, seq![t].skip(1)) == walk(t) by {
            lemma_tree_is_forest(source_info, events@, t);
        }
    }
    if events.len() == 0 {
        proof {
            assert forall|ts: Seq<ParserToken<'a, R>>|
                ts.len() > 0 && #[trigger] forest_at(source_info, events@, 0, ts) && trees_walk(ts).len()
                    == events@.len() implies false by {
                lemma_trees_walk_front(ts);
            }
        }
        return None;
    }
    let (root_rule, root_start) = match events[0] {
        TokenEvent::Start { rule, pos } => (rule, pos),
        TokenEvent::End { .. } => {
            proof {
                assert forall|ts: Seq<ParserToken<'a, R>>|
                    ts.len() > 0 && #[trigger] forest_at(source_info, events@, 0, ts) && trees_walk(ts).len()
                        == events@.len() implies false by {
                    lemma_trees_walk_front(ts);
                    assert(events@[0] == trees_walk(ts)[0]);
                }
            }
            return None;
        },
    };
    let mut root_children: Vec<ParserToken<'a, R>> = Vec::new();
    let mut root_end: Option<usize> = None;
    let mut i: usize = 1;
    proof {
        assert forall|ts: Seq<ParserToken<'a, R>>|
            ts.len() > 0 && #[trigger] forest_at(source_info, events@, 0, ts) && trees_walk(ts).len()
                == events@.len() implies walk_at(source_info, events@, 0, ts[0]) && ts[0].rule == root_rule
            && ts[0].start.idx == root_start by {
            lemma_forest_next(source_info, events@, 0, ts, 0);
            assert(ts.take(0) =~= Seq::<ParserToken<'a, R>>::empty());
            lemma_walk_end(source_info, events@, 0, ts[0]);
        }
    }
    loop
        invariant_except_break
            1 <= i <= events@.len(),
            events@[0] == (TokenEvent::Start { rule: root_rule, pos: root_start }),
            all_in_source(root_children@, source_info),
            bytes == source_info.spec_bytes(),
            source_run(bytes, events@, 1, Seq::empty(), Seq::empty(), None) == source_run(
                bytes,
                events@,
                i as int,
                Seq::empty(),
                trees_walk(root_children@),
                root_end,
            ),
            forall|ts: Seq<ParserToken<'a, R>>|
                ts.len() > 0 && #[trigger] forest_at(source_info, events@, 0, ts) && trees_walk(ts).len()
                    == events@.len() ==> {
                    let a = ts[0];
                    let n = a.children_seq().len() as int;
                    let rest = ts.skip(1);
                    &&& walk_at(source_info, events@, 0, a)
                    &&& a.rule == root_rule && a.start.idx == root_start
                    &&& root_end is None ==> (root_children@.len() <= n && i == 1 + children_walk(
                        a,
                        root_children@.len() as int,
                    ).len() && trees_walk(root_children@) == children_walk(a, root_children@.len() as int))
                    &&& root_end is Some ==> (root_end == Some(a.end.idx) && n <= root_children@.len() <= n
                        + rest.len() && i == walk(a).len() + trees_walk(
                        rest.take(root_children@.len() - n),
                    ).len() && trees_walk(root_children@) == children_walk(a, n) + trees_walk(
                        rest.take(root_children@.len() - n),
                    ))
                },
        ensures
            i <= events@.len(),
            all_in_source(root_children@, source_info),
            events@[0] == (TokenEvent::Start { rule: root_rule, pos: root_start }),
            bytes == source_info.spec_bytes(),
            source_run(bytes, events@, 1, Seq::empty(), Seq::empty(), None) == Some(
                (trees_walk(root_children@), root_end),
            ),
            forall|ts: Seq<ParserToken<'a, R>>|
                ts.len() > 0 && #[trigger] forest_at(source_info, events@, 0, ts) && trees_walk(ts).len()
                    == events@.len() ==> {
                    let a = ts[0];
                    let n = a.children_seq().len() as int;
                    let rest = ts.skip(1);
                    &&& a.rule == root_rule && a.start.idx == root_start
                    &&& root_end == Some(a.end.idx)
                    &&& root_children@.len() == n + rest.len()
                    &&& trees_walk(root_children@) == children_walk(a, n) + trees_walk(rest)
                },
        decreases events@.len() - i,
    {
        if i >= events.len() {
            proof {
                assert forall|ts: Seq<ParserToken<'a, R>>|
                    ts.len() > 0 && #[trigger] forest_at(source_info, events@, 0, ts) && trees_walk(ts).len()
                        == events@.len() implies root_end is Some && root_children@.len() == ts[0].children_seq().len()
                    + ts.skip(1).len() by {
                    let a = ts[0];
                    let n = a.children_seq().len() as int;
                    let rest = ts.skip(1);
                    lemma_trees_walk_front(ts);
                    lemma_walk_end(source_info, events@, 0, a);
                    if root_end is None {
                        lemma_children_walk_prefix(a, root_children@.len() as int, n);
                    } else {
                        let m = root_children@.len() - n;
                        if m < rest.len() {
                            lemma_forest_prefix(rest, m);
                            lemma_forest_next_len(rest, m);
                        }
                    }
                }
                assert forall|ts: Seq<ParserToken<'a, R>>|
                    ts.len() > 0 && #[trigger] forest_at(source_info, events@, 0, ts) && trees_walk(ts).len()
                        == events@.len() implies root_children@.len() - ts[0].children_seq().len() == ts.skip(1).len()
                    && ts.skip(1).take(ts.skip(1).len() as int) == ts.skip(1) by {
                    assert(ts.skip(1).take(ts.skip(1).len() as int) =~= ts.skip(1));
                }
            }
            break;
        }
        match events[i] {
            TokenEvent::Start { .. } => {
                let read = read_node(source_info, events, i);
                proof {
                    assert forall|ts: Seq<ParserToken<'a, R>>|
                        ts.len() > 0 && #[trigger] forest_at(source_info, events@, 0, ts) && trees_walk(ts).len()
                            == events@.len() implies ({
                            let a = ts[0];
                            let n = a.children_seq().len() as int;
                            let rest = ts.skip(1);
                            let m = root_children@.len() - n;
                            if root_end is None {
                                &&& root_children@.len() < n
                                &&& walk_at(source_info, events@, i as int, a.children_seq()[root_children@.len() as int])
                                &&& children_walk(a, root_children@.len() + 1int) == children_walk(
                                    a,
                                    root_children@.len() as int,
                                ) + walk(a.children_seq()[root_children@.len() as int])
                            } else {
                                &&& 0 <= m < rest.len()
                                &&& walk_at(source_info, events@, i as int, rest[m])
                                &&& rest.take(m + 1) == rest.take(m).push(rest[m])
                                &&& trees_walk(rest.take(m + 1)) == trees_walk(rest.take(m)) + walk(rest[m])
                            }
                        }) by {
                        let a = ts[0];
                        let n = a.children_seq().len() as int;
                        let rest = ts.skip(1);
                        if root_end is None {
                            if root_children@.len() < n {
                                lemma_walk_child(source_info, events@, 0, a, root_children@.len() as int);
                            } else {
                                lemma_walk_end(source_info, events@, 0, a);
                            }
                        } else {
                            let m = root_children@.len() - n;
                            lemma_trees_walk_front(ts);
                            lemma_forest_rest(source_info, events@, ts);
                            if m < rest.len() {
                                lemma_forest_next(source_info, events@, walk(a).len() as int, rest, m);
                                lemma_trees_walk_take(rest, m);
                                assert(rest.take(m + 1) =~= rest.take(m).push(rest[m]));
                            } else {
                                assert(rest.take(m) =~= rest);
                                assert(i == events@.len());
                            }
                        }
                    }
                }
                let ghost kid_walks = trees_walk(root_children@);
                proof {
                    assert(source_run(bytes, events@, i as int, Seq::empty(), kid_walks, root_end) == match read {
                        NodeRead::Complete(u, j) => {
                            let next = attach_walk(Seq::empty(), kid_walks, walk(u));
                            source_run(bytes, events@, j as int, next.0, next.1, root_end)
                        },
                        NodeRead::Incomplete => Some((kid_walks, root_end)),
                        NodeRead::Failed => None,
                    });
                }
                match read {
                    NodeRead::Complete(child, next) => {
                        let ghost before = root_children@;
                        root_children.push(child);
                        proof {
                            assert(root_children@.drop_last() =~= before);
                            assert(trees_walk(root_children@) == kid_walks + walk(child));
                            assert forall|k: int| 0 <= k < root_children@.len() implies #[trigger] root_children@[k].wf()
                                && root_children@[k].start.source_info == source_info by {
                                if k < before.len() {
                                    assert(root_children@[k] == before[k]);
                                }
                            }
                            assert forall|ts: Seq<ParserToken<'a, R>>|
                                ts.len() > 0 && #[trigger] forest_at(source_info, events@, 0, ts) && trees_walk(ts).len()
                                    == events@.len() implies ({
                                    let a = ts[0];
                                    let n = a.children_seq().len() as int;
                                    let rest = ts.skip(1);
                                    root_end is Some ==> (root_children@.len() - n) == before.len() - n + 1
                                        && rest.take(root_children@.len() - n) == rest.take(before.len() - n + 1)
                                }) by {
                            }
                        }
                        i = next;
                    },
                    NodeRead::Incomplete => {
                        proof {
                            assert forall|ts: Seq<ParserToken<'a, R>>|
                                ts.len() > 0 && #[trigger] forest_at(source_info, events@, 0, ts) && trees_walk(ts).len()
                                    == events@.len() implies false by {
                            }
                        }
                        break;
                    },
                    NodeRead::Failed => {
                        proof {
                            assert forall|ts: Seq<ParserToken<'a, R>>|
                                ts.len() > 0 && #[trigger] forest_at(source_info, events@, 0, ts) && trees_walk(ts).len()
                                    == events@.len() implies false by {
                            }
                            assert forall|t: ParserToken<'a, R>| #[trigger] tree_of_walk(source_info, events@, t) implies false by {
                                lemma_tree_is_forest(source_info, events@, t);
                            }
                        }
                        return None;
                    },
                }
            },
            TokenEvent::End { rule: _, pos } => {
                proof {
                    assert forall|ts: Seq<ParserToken<'a, R>>|
                        ts.len() > 0 && #[trigger] forest_at(source_info, events@, 0, ts) && trees_walk(ts).len()
                            == events@.len() implies root_end is None && root_children@.len()
                        == ts[0].children_seq().len() && pos == ts[0].end.idx && i + 1 == walk(ts[0]).len() by {
                        let a = ts[0];
                        let n = a.children_seq().len() as int;
                        let rest = ts.skip(1);
                        lemma_walk_end(source_info, events@, 0, a);
                        if root_end is None {
                            if root_children@.len() < n {
                                lemma_walk_child(source_info, events@, 0, a, root_children@.len() as int);
                                lemma_walk_end(source_info, events@, i as int, a.children_seq()[root_children@.len() as int]);
                            }
                        } else {
                            let m = root_children@.len() - n;
                            lemma_trees_walk_front(ts);
                            lemma_forest_rest(source_info, events@, ts);
                            if m < rest.len() {
                                lemma_forest_next(source_info, events@, walk(a).len() as int, rest, m);
                                lemma_walk_end(source_info, events@, i as int, rest[m]);
                            } else {
                                assert(rest.take(m) =~= rest);
                            }
                        }
                    }
                    assert forall|ts: Seq<ParserToken<'a, R>>|
                        ts.len() > 0 && #[trigger] forest_at(source_info, events@, 0, ts) && trees_walk(ts).len()
                            == events@.len() implies ts.skip(1).take(0) == Seq::<ParserToken<'a, R>>::empty()
                        && children_walk(ts[0], ts[0].children_seq().len() as int) + trees_walk(
                        Seq::<ParserToken<'a, R>>::empty(),
                    ) == children_walk(ts[0], ts[0].children_seq().len() as int) by {
                        assert(ts.skip(1).take(0) =~= Seq::<ParserToken<'a, R>>::empty());
                        assert(children_walk(ts[0], ts[0].children_seq().len() as int) + trees_walk(
                            Seq::<ParserToken<'a, R>>::empty(),
                        ) =~= children_walk(ts[0], ts[0].children_seq().len() as int));
                    }
                }
                root_end = Some(pos);
                i += 1;
            },
        }
    }
    let ghost kids = root_children@;
    let end = match root_end {
        Some(end) => end,
        None => {
            return None;
        },
    };
    let root = close_token(source_info, root_rule, root_start, end, root_children);
    proof {
        if root is Some {
            let u = root->0;
            lemma_children_walk(u, kids.len() as int);
            assert(kids.take(kids.len() as int) =~= kids);
            assert(walk(u) == seq![TokenEvent::Start { rule: root_rule, pos: root_start }] + trees_walk(kids)
                + seq![TokenEvent::End { rule: root_rule, pos: end }]);
        }
        assert forall|ts: Seq<ParserToken<'a, R>>|
            ts.len() > 0 && #[trigger] forest_at(source_info, events@, 0, ts) && trees_walk(ts).len()
                == events@.len() implies (root matches Some(u) && walk(u) == walk_with_trees(ts[0], ts.skip(1))) by {
            let a = ts[0];
            lemma_trees_walk_front(ts);
            lemma_forest_next(source_info, events@, 0, ts, 0);
            assert(ts.take(0) =~= Seq::<ParserToken<'a, R>>::empty());
            if let Some(u) = root {
                lemma_children_walk(u, kids.len() as int);
                assert(kids.take(kids.len() as int) =~= kids);
                assert(walk(u) =~= walk_with_trees(a, ts.skip(1)));
            }
        }
    }
    root
}

/// Where the walks of the trees `ts` make all of `events`, those of the trees after the first
/// follow the walk of the first.
proof fn lemma_forest_rest<'a, R>(source_info: &'a SourceInfo, events: Seq<TokenEvent<R>>, ts: Seq<ParserToken<'a, R>>)
    requires
        ts.len() > 0,
        forest_at(source_info, events, 0, ts),
        trees_walk(ts).len() == events.len(),
    ensures
        forest_at(source_info, events, walk(ts[0]).len() as int, ts.skip(1)),
        walk(ts[0]).len() + trees_walk(ts.skip(1)).len() == events.len(),
{
    lemma_trees_walk_front(ts);
    let w = walk(ts[0]).len() as int;
    let rest = ts.skip(1);
    assert(events.subrange(w, w + trees_walk(rest).len()) =~= trees_walk(rest)) by {
        assert(events.subrange(0, events.len() as int) =~= events);
        assert forall|x: int| 0 <= x < trees_walk(rest).len() implies events.subrange(w, w + trees_walk(rest).len())[x]
            == trees_walk(rest)[x] by {
            assert(events[w + x] == trees_walk(ts)[w + x]);
        }
    }
    assert forall|k: int| 0 <= k < rest.len() implies (#[trigger] rest[k]).wf() && rest[k].start.source_info
        == source_info by {
        assert(rest[k] == ts[k + 1]);
    }
}

/// The walk of the first `m` trees of a forest, then that of the next, fits in the walk of the
/// forest.
proof fn lemma_forest_next_len<'a, R>(ts: Seq<ParserToken<'a, R>>, m: int)
    requires
        0 <= m < ts.len(),
    ensures
        trees_walk(ts.take(m)).len() + walk(ts[m]).len() <= trees_walk(ts).len(),
        walk(ts[m]).len() > 0,
{
    lemma_trees_walk_take(ts, m);
    lemma_forest_prefix(ts, m + 1);
}


/// Every node that the walk `events` closes from `i` on, where the nodes that start at the
/// positions `opens` are still open, spans whole characters of `bytes`; an end that finds no
/// open node closes nothing.
pub open spec fn closed_spans_whole<R>(bytes: Seq<u8>, events: Seq<TokenEvent<R>>, i: int, opens: Seq<usize>) -> bool
    decreases events.len() - i,
{
    if 0 <= i < events.len() {
        match events[i] {
            TokenEvent::Start { rule: _, pos } => closed_spans_whole(bytes, events, i + 1, opens.push(pos)),
            TokenEvent::End { rule: _, pos } => if opens.len() == 0 {
                closed_spans_whole(bytes, events, i + 1, opens)
            } else {
                extractable(bytes, opens.last() as int, pos as int) && closed_spans_whole(
                    bytes,
                    events,
                    i + 1,
                    opens.drop_last(),
                )
            },
        }
    } else {
        true
    }
}

/// Builds the root of a stylesheet's parse tree from the depth-first walk `events`: the first
/// event starts the root, which ends where the source ends. Every later node is closed and
/// checked, and attached to its enclosing node; a node that no open node encloses is dropped, so
/// the root keeps no children. `None` when the walk does not begin with a start or a node does not
/// span whole characters of the source.
pub fn parse_css<'a>(source_info: &'a SourceInfo, events: &Vec<TokenEvent<crate::rules::CssRule>>) -> (r:
    Option<ParserToken<'a, crate::rules::CssRule>>)
    ensures
        r is Some <==> (events@.len() > 0 && (events@[0] matches TokenEvent::Start { rule: _, pos }
            && closed_spans_whole(source_info.spec_bytes(), events@, 1, seq![]) && extractable(
            source_info.spec_bytes(),
            pos as int,
            source_info.spec_bytes().len() as int,
        ))),
        r matches Some(t) ==> {
            &&& t.wf()
            &&& t.start.source_info == source_info
            &&& t.value is Leaf
            &&& t.end.idx == source_info.spec_bytes().len()
            &&& events@[0] matches TokenEvent::Start { rule, pos } && t.rule == rule && t.start.idx
                == pos
        },
{
    proof {
        use_type_invariant(source_info);
    }
    if events.len() == 0 {
        return None;
    }
    let (root_rule, root_start) = match events[0] {
        TokenEvent::Start { rule, pos } => (rule, pos),
        TokenEvent::End { .. } => {
            return None;
        },
    };
    let ghost bytes = source_info.spec_bytes();
    let ghost mut opens: Seq<usize> = seq![];
    let mut stack: Vec<OpenToken<'a, crate::rules::CssRule>> = Vec::new();
    let mut i: usize = 1;
    while i < events.len()
        invariant
            events@[0] matches TokenEvent::Start { rule, pos } && rule == root_rule && pos == root_start,
            1 <= i <= events@.len(),
            bytes == source_info.spec_bytes(),
            forall|k: int|
                0 <= k < stack@.len() ==> all_in_source(#[trigger] stack@[k].children@, source_info),
            opens.len() == stack@.len(),
            forall|k: int| 0 <= k < stack@.len() ==> #[trigger] stack@[k].start == opens[k],
            closed_spans_whole(bytes, events@, 1, seq![]) == closed_spans_whole(bytes, events@, i as int, opens),
        decreases events@.len() - i,
    {
        match events[i] {
            TokenEvent::Start { rule, pos } => {
                stack.push(OpenToken { rule, start: pos, children: Vec::new() });
                proof {
                    opens = opens.push(pos);
                }
            },
            TokenEvent::End { rule: _, pos } => {
                if let Some(open) = stack.pop() {
                    proof {
                        assert(open.start == opens.last());
                        opens = opens.drop_last();
                    }
                    let token = match close_token(source_info, open.rule, open.start, pos, open.children) {
                        Some(token) => token,
                        None => {
                            return None;
                        },
                    };
                    let ghost before = stack@;
                    if let Some(parent) = stack.pop() {
                        let mut parent = parent;
                        parent.children.push(token);
                        assert(all_in_source(parent.children@, source_info));
                        stack.push(parent);
                        assert forall|k: int|
                            0 <= k < stack@.len() implies all_in_source(
                            #[trigger] stack@[k].children@,
                            source_info,
                        ) by {
                            if k < stack@.len() - 1 {
                                assert(stack@[k] == before[k]);
                            }
                        }
                        assert forall|k: int| 0 <= k < stack@.len() implies #[trigger] stack@[k].start
                            == opens[k] by {
                            if k < stack@.len() - 1 {
                                assert(stack@[k] == before[k]);
                            }
                        }
                    }
                }
            },
        }
        i += 1;
    }
    let end = source_info.source.as_str().as_bytes().len();
    let root = close_token(source_info, root_rule, root_start, end, Vec::new());
    root
}

/// The events `a` and `b` start or end the same nodes at the same positions, the starts with the
/// same rules.
pub open spec fn same_event<R>(a: TokenEvent<R>, b: TokenEvent<R>) -> bool {
    match a {
        TokenEvent::Start { rule: r1, pos: p1 } => b matches TokenEvent::Start { rule: r2, pos: p2 } && r1
            == r2 && p1 == p2,
        TokenEvent::End { rule: _, pos: p1 } => b matches TokenEvent::End { rule: _, pos: p2 } && p1 == p2,
    }
}

/// The walks `a` and `b` agree event by event, whatever rules their ends name.
pub open spec fn same_walk<R>(a: Seq<TokenEvent<R>>, b: Seq<TokenEvent<R>>) -> bool {
    &&& a.len() == b.len()
    &&& forall|k: int| 0 <= k < a.len() ==> #[trigger] same_event(a[k], b[k])
}

/// Walks that agree, put one after the other, agree.
proof fn lemma_same_walk_concat<R>(a1: Seq<TokenEvent<R>>, b1: Seq<TokenEvent<R>>, a2: Seq<TokenEvent<R>>, b2: Seq<TokenEvent<R>>)
    requires
        same_walk(a1, b1),
        same_walk(a2, b2),
    ensures
        same_walk(a1 + a2, b1 + b2),
{
    assert forall|k: int| 0 <= k < (a1 + a2).len() implies #[trigger] same_event((a1 + a2)[k], (b1 + b2)[k]) by {
        if k < a1.len() {
            assert(same_event(a1[k], b1[k]));
        } else {
            assert(same_event(a2[k - a1.len()], b2[k - a1.len()]));
        }
    }
}

/// Which node reading a selector's walk keeps, from `i` on, where the nodes that start at the
/// events `opens` are still open, some node has been attached to another or not (`attached`),
/// and `kept` holds the first and last events of the node kept so far: every end closes the
/// innermost open node, and a node that no open node encloses is kept once some node has been
/// attached. `None` when an end finds no open node or a node does not span whole characters of
/// `bytes`.
pub open spec fn selector_walk_kept<R>(
    bytes: Seq<u8>,
    events: Seq<TokenEvent<R>>,
    i: int,
    opens: Seq<int>,
    attached: bool,
    kept: Option<(int, int)>,
) -> Option<Option<(int, int)>>
    decreases events.len() - i,
{
    if 0 <= i < events.len() {
        match events[i] {
            TokenEvent::Start { rule: _, pos: _ } => selector_walk_kept(
                bytes,
                events,
                i + 1,
                opens.push(i),
                attached,
                kept,
            ),
            TokenEvent::End { rule: _, pos } => if opens.len() == 0 {
                None
            } else if !(events[opens.last()] matches TokenEvent::Start { rule: _, pos: s } && extractable(
                bytes,
                s as int,
                pos as int,
            )) {
                None
            } else if opens.len() > 1 {
                selector_walk_kept(bytes, events, i + 1, opens.drop_last(), true, kept)
            } else if attached {
                selector_walk_kept(bytes, events, i + 1, opens.drop_last(), attached, Some((opens.last(), i)))
            } else {
                selector_walk_kept(bytes, events, i + 1, opens.drop_last(), attached, kept)
            },
        }
    } else {
        Some(kept)
    }
}

/// Builds a selector's parse tree from the depth-first walk `events`: every end closes the
/// innermost open node and attaches it to the node that encloses it; the tree is the last node
/// that no open node encloses, closed after some node has been attached. `None` when an end has
/// no open node, no such node is closed, or a node does not span whole characters of the source.
/// The tree's walk is the stretch of `events` from its start to its end, whatever rules the ends
/// name.
pub fn parse_selector<'a>(source_info: &'a SourceInfo, events: &Vec<TokenEvent<crate::rules::SelectorRule>>) -> (r:
    Option<ParserToken<'a, crate::rules::SelectorRule>>)
    ensures
        r is Some <==> selector_walk_kept(source_info.spec_bytes(), events@, 0, seq![], false, None) matches Some(
            Some(_),
        ),
        r matches Some(t) ==> {
            &&& t.wf()
            &&& t.start.source_info == source_info
            &&& selector_walk_kept(source_info.spec_bytes(), events@, 0, seq![], false, None) matches Some(
                Some((s, e)),
            ) && 0 <= s <= e < events@.len() && same_walk(walk(t), events@.subrange(s, e + 1))
        },
{
    let ghost bytes = source_info.spec_bytes();
    let ghost mut opens: Seq<int> = seq![];
    let ghost mut kept: Option<(int, int)> = None;
    let mut stack: Vec<OpenToken<'a, crate::rules::SelectorRule>> = Vec::new();
    let mut root: Option<ParserToken<'a, crate::rules::SelectorRule>> = None;
    let mut has_mutated = false;
    let mut i: usize = 0;
    while i < events.len()
        invariant
            i <= events@.len(),
            bytes == source_info.spec_bytes(),
            forall|k: int|
                0 <= k < stack@.len() ==> all_in_source(#[trigger] stack@[k].children@, source_info),
            opens.len() == stack@.len(),
            forall|k: int| #![trigger opens[k]] 0 <= k < stack@.len() ==> 0 <= opens[k],
            forall|k: int| #![trigger opens[k]] 0 <= k < stack@.len() ==> opens[k] < i,
            forall|k: int|
                #![trigger opens[k]]
                0 <= k < stack@.len() ==> events@[opens[k]] == (TokenEvent::Start {
                    rule: stack@[k].rule,
                    pos: stack@[k].start,
                }),
            forall|k: int|
                #![trigger opens[k]]
                0 <= k < stack@.len() - 1 ==> opens[k] < opens[k + 1] && same_walk(
                    trees_walk(stack@[k].children@),
                    events@.subrange(opens[k] + 1, opens[k + 1]),
                ),
            stack@.len() > 0 ==> same_walk(
                trees_walk(stack@.last().children@),
                events@.subrange(opens.last() + 1, i as int),
            ),
            root is Some <==> kept is Some,
            root matches Some(t) ==> {
                &&& t.wf()
                &&& t.start.source_info == source_info
                &&& kept matches Some((s, e)) && 0 <= s <= e < i && same_walk(walk(t), events@.subrange(s, e + 1))
            },
            selector_walk_kept(bytes, events@, 0, seq![], false, None) == selector_walk_kept(
                bytes,
                events@,
                i as int,
                opens,
                has_mutated,
                kept,
            ),
        decreases events@.len() - i,
    {
        match events[i] {
            TokenEvent::Start { rule, pos } => {
                let ghost before = stack@;
                stack.push(OpenToken { rule, start: pos, children: Vec::new() });
                let ghost old_opens = opens;
                proof {
                    opens = opens.push(i as int);
                    assert(trees_walk(stack@.last().children@) =~= Seq::<TokenEvent<crate::rules::SelectorRule>>::empty());
                    assert(events@.subrange(i + 1, i + 1) =~= Seq::<TokenEvent<crate::rules::SelectorRule>>::empty());
                    assert forall|k: int|
                        #![trigger opens[k]]
                        0 <= k < stack@.len() - 1 implies opens[k] < opens[k + 1] && same_walk(
                        trees_walk(stack@[k].children@),
                        events@.subrange(opens[k] + 1, opens[k + 1]),
                    ) by {
                        assert(stack@[k] == before[k]);
                        assert(opens[k] == old_opens[k]);
                        if k < before.len() - 1 {
                            assert(opens[k + 1] == old_opens[k + 1]);
                        } else {
                            assert(k == before.len() - 1);
                            assert(before.last() == before[k]);
                        }
                    }
                    assert forall|k: int|
                        #![trigger opens[k]]
                        0 <= k < stack@.len() implies 0 <= opens[k] < i + 1 && events@[opens[k]] == (
                        TokenEvent::Start { rule: stack@[k].rule, pos: stack@[k].start }) by {
                        if k < before.len() {
                            assert(stack@[k] == before[k]);
                            assert(opens[k] == old_opens[k]);
                        } else {
                            assert(stack@[k].rule == rule && stack@[k].start == pos);
                            assert(opens[k] == i);
                        }
                    }
                }
            },
            TokenEvent::End { rule: _, pos } => {
                let ghost before = stack@;
                let open = match stack.pop() {
                    Some(open) => open,
                    None => {
                        return None;
                    },
                };
                let ghost s = opens.last();
                let ghost kids = open.children@;
                let ghost old_opens = opens;
                proof {
                    assert(open == before.last());
                    opens = opens.drop_last();
                }
                let token = match close_token(source_info, open.rule, open.start, pos, open.children) {
                    Some(token) => token,
                    None => {
                        return None;
                    },
                };
                proof {
                    lemma_children_walk(token, kids.len() as int);
                    assert(kids.take(kids.len() as int) =~= kids);
                    let sub = events@.subrange(s, i + 1);
                    assert(sub =~= seq![events@[s]] + events@.subrange(s + 1, i as int) + seq![events@[i as int]]);
                    assert(same_walk(
                        seq![TokenEvent::Start { rule: token.rule, pos: token.start.idx }],
                        seq![events@[s]],
                    ));
                    assert(same_walk(
                        seq![TokenEvent::End { rule: token.rule, pos: token.end.idx }],
                        seq![events@[i as int]],
                    ));
                    lemma_same_walk_concat(
                        seq![TokenEvent::Start { rule: token.rule, pos: token.start.idx }],
                        seq![events@[s]],
                        trees_walk(kids),
                        events@.subrange(s + 1, i as int),
                    );
                    lemma_same_walk_concat(
                        seq![TokenEvent::Start { rule: token.rule, pos: token.start.idx }] + trees_walk(kids),
                        seq![events@[s]] + events@.subrange(s + 1, i as int),
                        seq![TokenEvent::End { rule: token.rule, pos: token.end.idx }],
                        seq![events@[i as int]],
                    );
                    assert(same_walk(walk(token), sub));
                }
                let ghost mid = stack@;
                if let Some(parent) = stack.pop() {
                    has_mutated = true;
                    let ghost popped = parent;
                    proof {
                        assert(popped == mid.last());
                    }
                    let mut parent = parent;
                    let ghost pkids = parent.children@;
                    parent.children.push(token);
                    assert(all_in_source(parent.children@, source_info));
                    stack.push(parent);
                    proof {
                        let p = opens.last();
                        assert(parent.children@.drop_last() =~= pkids);
                        assert(trees_walk(parent.children@) == trees_walk(pkids) + walk(token));
                        assert(events@.subrange(p + 1, i + 1) =~= events@.subrange(p + 1, s) + events@.subrange(
                            s,
                            i + 1,
                        ));
                        lemma_same_walk_concat(
                            trees_walk(pkids),
                            events@.subrange(p + 1, s),
                            walk(token),
                            events@.subrange(s, i + 1),
                        );
                    }
                    assert forall|k: int|
                        0 <= k < stack@.len() implies all_in_source(
                        #[trigger] stack@[k].children@,
                        source_info,
                    ) by {
                        if k < stack@.len() - 1 {
                            assert(stack@[k] == mid[k]);
                        }
                    }
                    assert forall|k: int|
                        #![trigger opens[k]]
                        0 <= k < stack@.len() implies 0 <= opens[k] < i + 1 && events@[opens[k]] == (
                        TokenEvent::Start { rule: stack@[k].rule, pos: stack@[k].start }) by {
                        assert(opens[k] == old_opens[k]);
                        assert(mid[k] == before[k]);
                        if k < stack@.len() - 1 {
                            assert(stack@[k] == mid[k]);
                        } else {
                            assert(stack@[k] == parent);
                            assert(parent.rule == popped.rule && parent.start == popped.start);
                        }
                    }
                    assert forall|k: int|
                        #![trigger opens[k]]
                        0 <= k < stack@.len() - 1 implies opens[k] < opens[k + 1] && same_walk(
                        trees_walk(stack@[k].children@),
                        events@.subrange(opens[k] + 1, opens[k + 1]),
                    ) by {
                        assert(stack@[k] == mid[k]);
                        assert(mid[k] == before[k]);
                    }
                } else if has_mutated {
                    root = Some(token);
                    proof {
                        kept = Some((s, i as int));
                    }
                }
            },
        }
        i += 1;
    }
    root
}

/// Walks a sequence of sibling tokens front to back. A token that has been taken stays
/// taken; a failed expectation gives the token back.
#[derive(Debug)]
pub struct TokenTracker<'a, R> {
    pub tokens: &'a Vec<ParserToken<'a, R>>,
    pub idx: usize,
}

impl<'a, R: Copy> TokenTracker<'a, R> {
    /// The position lies within the tokens, and every token is well formed.
    pub open spec fn wf(&self) -> bool {
        &&& self.idx <= self.tokens@.len()
        &&& forall|i: int| 0 <= i < self.tokens@.len() ==> (#[trigger] self.tokens@[i]).wf()
    }

    /// A tracker at the first of `tokens`.
    pub fn new(tokens: &'a Vec<ParserToken<'a, R>>) -> (r: Self)
        requires
            forall|i: int| 0 <= i < tokens@.len() ==> (#[trigger] tokens@[i]).wf(),
        ensures
            r.wf(),
            r.tokens == tokens,
            r.idx == 0,
    {
        TokenTracker { tokens, idx: 0 }
    }

    /// The next token, without taking it.
    pub fn peek(&self) -> (r: Option<&'a ParserToken<'a, R>>)
        requires
            self.wf(),
        ensures
            r is Some <==> self.idx < self.tokens@.len(),
            r matches Some(t) ==> *t == self.tokens@[self.idx as int],
    {
        if self.idx < self.tokens.len() {
            Some(&self.tokens[self.idx])
        } else {
            None
        }
    }

    /// Gives the last taken token back and returns `error`.
    pub fn fail_because<O, E>(&mut self, error: E) -> (r: Result<O, E>)
        requires
            old(self).wf(),
            old(self).idx >= 1,
        ensures
            final(self).wf(),
            final(self).tokens == old(self).tokens,
            final(self).idx == old(self).idx - 1,
            r == Err::<O, E>(error),
    {
        self.idx = self.idx - 1;
        Err(error)
    }

    /// Takes the next token, if any.
    pub fn pop_front(&mut self) -> (r: Option<&'a ParserToken<'a, R>>)
        requires
            old(self).wf(),
        ensures
            final(self).wf(),
            final(self).tokens == old(self).tokens,
            r is Some <==> old(self).idx < old(self).tokens@.len(),
            r matches Some(t) ==> *t == old(self).tokens@[old(self).idx as int]
                && final(self).idx == old(self).idx + 1,
            r is None ==> final(self).idx == old(self).idx,
    {
        if self.idx < self.tokens.len() {
            let t = &self.tokens[self.idx];
            self.idx = self.idx + 1;
            Some(t)
        } else {
            None
        }
    }

    /// Takes the next `count` tokens, or none when fewer remain.
    pub fn pop_front_count(&mut self, count: usize) -> (r: Option<Vec<&'a ParserToken<'a, R>>>)
        requires
            old(self).wf(),
        ensures
            final(self).wf(),
            final(self).tokens == old(self).tokens,
            r is Some <==> old(self).idx + count <= old(self).tokens@.len(),
            r matches Some(taken) ==> {
                &&& taken@.len() == count
                &&& forall|j: int|
                    0 <= j < count ==> *#[trigger] taken@[j] == old(self).tokens@[old(self).idx + j]
                &&& final(self).idx == old(self).idx + count
            },
            r is None ==> final(self).idx == old(self).idx,
    {
        if count > self.tokens.len() - self.idx {
            return None;
        }
        let mut taken: Vec<&'a ParserToken<'a, R>> = Vec::new();
        let mut j: usize = 0;
        while j < count
            invariant
                self.wf(),
                self.tokens@.len() <= usize::MAX,
                self.idx + count <= self.tokens@.len(),
                j <= count,
                taken@.len() == j,
                forall|k: int| 0 <= k < j ==> *#[trigger] taken@[k] == self.tokens@[self.idx + k],
            decreases count - j,
        {
            taken.push(&self.tokens[self.idx + j]);
            j += 1;
        }
        self.idx = self.idx + count;
        Some(taken)
    }

    /// The number of tokens not yet taken.
    pub fn len(&self) -> (r: usize)
        requires
            self.wf(),
        ensures
            r == self.tokens@.len() - self.idx,
    {
        self.tokens.len() - self.idx
    }

    /// Whether there are still tokens to take.
    pub fn is_empty(&self) -> (r: bool)
        requires
            self.wf(),
        ensures
            r == (self.idx < self.tokens@.len()),
    {
        self.len() > 0
    }
}

/// Why reading a source failed: a stylesheet error, a selector error, or a message.
#[derive(Debug)]
pub enum ExpectError<'a> {
    SyntaxError(crate::syntax::CssExpectError<'a>),
    SelectorError(crate::selector::SelectorExpectError),
    Generic(String),
}

impl<'a> From<crate::syntax::CssExpectError<'a>> for ExpectError<'a> {
    fn from(e: crate::syntax::CssExpectError<'a>) -> (r: Self) {
        ExpectError::SyntaxError(e)
    }
}

impl<'a> vstd::std_specs::convert::FromSpecImpl<crate::syntax::CssExpectError<'a>> for ExpectError<'a> {
    open spec fn obeys_from_spec() -> bool {
        true
    }

    open spec fn from_spec(e: crate::syntax::CssExpectError<'a>) -> Self {
        ExpectError::SyntaxError(e)
    }
}

impl<'a> From<crate::selector::SelectorExpectError> for ExpectError<'a> {
    fn from(e: crate::selector::SelectorExpectError) -> (r: Self) {
        ExpectError::SelectorError(e)
    }
}

impl<'a> vstd::std_specs::convert::FromSpecImpl<crate::selector::SelectorExpectError> for ExpectError<'a> {
    open spec fn obeys_from_spec() -> bool {
        true
    }

    open spec fn from_spec(e: crate::selector::SelectorExpectError) -> Self {
        ExpectError::SelectorError(e)
    }
}

impl<'a> From<String> for ExpectError<'a> {
    fn from(message: String) -> (r: Self) {
        ExpectError::Generic(message)
    }
}

impl<'a> vstd::std_specs::convert::FromSpecImpl<String> for ExpectError<'a> {
    open spec fn obeys_from_spec() -> bool {
        true
    }

    open spec fn from_spec(message: String) -> Self {
        ExpectError::Generic(message)
    }
}

} // verus!
