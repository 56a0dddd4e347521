//! Token counting with the GPT-4 byte-pair encoding, and admission of
//! prioritised sections into a token budget.

use vstd::prelude::*;
use vstd::multiset::Multiset;
use vstd::seq_lib::{lemma_multiset_commutative, to_multiset_build};
use crate::text::{chars_of, string_of};

verus! {

/// The byte-pair encoder of `tiktoken_rs`, carried through as an opaque value.
#[verifier::external_type_specification]
#[verifier::external_body]
pub struct ExCoreBPE(tiktoken_rs::CoreBPE);

/// The encoder that `tiktoken_rs::get_bpe_from_model` hands out for a model
/// name, or `None` where it finds no tokenizer for the name and reports an
/// error.
pub uninterp spec fn model_bpe(model: Seq<char>) -> Option<tiktoken_rs::CoreBPE>;

/// The message with which `tiktoken_rs::get_bpe_from_model` refuses a model
/// name that it finds no tokenizer for.
pub open spec fn refusal_text(model: Seq<char>) -> Seq<char> {
    "No tokenizer found for model "@ + model
}

/// The token ids that `CoreBPE::encode` gives for a text under an encoder
/// when every special token of the encoder is allowed, or `None` where it
/// reports an error.
pub uninterp spec fn encoded(bpe: tiktoken_rs::CoreBPE, text: Seq<char>) -> Option<Seq<u32>>;

/// The text that `CoreBPE::decode` gives for token ids under an encoder, or
/// `None` where it reports an error.
pub uninterp spec fn decoded(bpe: tiktoken_rs::CoreBPE, ids: Seq<u32>) -> Option<Seq<char>>;

/// Calls `tiktoken_rs::get_bpe_from_model`. The crate looks the name up in
/// its tables of models and keeps one encoder per tokenizer for the life of
/// the process, so whether it hands out an encoder, and which, depends on
/// the model name alone. Its only error is that of a name for which it
/// finds no tokenizer, and the message of that error is handed back. The
/// vocabularies are built into the crate, which stops the program where one
/// of them cannot be read.
#[verifier::external_body]
#[allow(deprecated)]
fn load_bpe(model: &str) -> (r: Result<&'static tiktoken_rs::CoreBPE, String>)
    ensures
        match r {
            Ok(b) => model_bpe(model@) == Some(*b),
            Err(message) => model_bpe(model@) is None && message@ == refusal_text(model@),
        },
{
    tiktoken_rs::get_bpe_from_model(model).map_err(|e| e.to_string())
}

/// Calls `CoreBPE::encode` with the special tokens that
/// `CoreBPE::special_tokens` lists, which is what the crate's
/// `encode_with_special_tokens` does before it unwraps. The text is split
/// with the encoder's patterns and byte pairs are merged by rank; the
/// outcome depends on the encoder and the text alone. The outside function
/// reports an error where its pattern engine gives up on a text, and then
/// nothing is handed out.
#[verifier::external_body]
fn encode(bpe: &tiktoken_rs::CoreBPE, text: &str) -> (r: Option<Vec<u32>>)
    ensures
        match r {
            Some(ids) => encoded(*bpe, text@) == Some(ids@),
            None => encoded(*bpe, text@) is None,
        },
{
    bpe.encode(text, &bpe.special_tokens()).ok().map(|pair| pair.0)
}

/// Calls `CoreBPE::decode`, which joins the bytes of the tokens and fails on
/// an unknown id or where the bytes are no UTF-8 text.
#[verifier::external_body]
fn decode(bpe: &tiktoken_rs::CoreBPE, ids: &Vec<u32>) -> (r: Option<String>)
    ensures
        match r {
            Some(s) => decoded(*bpe, ids@) == Some(s@),
            None => decoded(*bpe, ids@) is None,
        },
{
    bpe.decode(ids).ok()
}

/// The name of the model whose encoding counts the budget.
pub open spec fn budget_model() -> Seq<char> {
    "gpt-4"@
}

/// The encoder of the model whose encoding counts the budget.
pub open spec fn budget_bpe() -> tiktoken_rs::CoreBPE {
    model_bpe(budget_model())->0
}

/// Why no counter can be made: the tokenizer's message where it finds no
/// tokenizer for the budget's model, and `None` where it finds one.
pub open spec fn tokenizer_refusal() -> Option<Seq<char>> {
    if model_bpe(budget_model()) is Some {
        None
    } else {
        Some(refusal_text(budget_model()))
    }
}

/// Whether `r` is the outcome of making something that counts tokens: it
/// is made exactly where the tokenizer finds the budget's model, and the
/// error holds the tokenizer's message otherwise.
pub open spec fn made_or_refused<T>(r: Result<T, TokenizerError>) -> bool {
    match r {
        Ok(_) => tokenizer_refusal() is None,
        Err(e) => tokenizer_refusal() == Some(e.message@),
    }
}

/// The token ids of `text` under the GPT-4 encoding, or `None` where the
/// tokenizer cannot encode it.
pub open spec fn token_ids(text: Seq<char>) -> Option<Seq<u32>> {
    encoded(budget_bpe(), text)
}

/// Whether the tokenizer can encode `text`.
pub open spec fn countable(text: Seq<char>) -> bool {
    token_ids(text) is Some
}

/// The number of tokens of `text` under the GPT-4 encoding; zero where
/// the tokenizer cannot encode it.
pub open spec fn token_count(text: Seq<char>) -> nat {
    match token_ids(text) {
        Some(ids) => ids.len(),
        None => 0,
    }
}

/// The length of `text` in bytes of UTF-8, as a machine word holds it.
pub open spec fn byte_len(text: Seq<char>) -> nat {
    (vstd::utf8::encode_utf8(text).len() as usize) as nat
}

/// The first characters of `text`, as many as its byte length scaled by
/// `max_tokens / total_tokens`, and all of it where that exceeds its length.
pub open spec fn proportional_prefix(text: Seq<char>, max_tokens: nat, total_tokens: nat) -> Seq<
    char,
> {
    let limit = (byte_len(text) * max_tokens) / total_tokens;
    if limit >= text.len() {
        text
    } else {
        text.take(limit as int)
    }
}

/// What truncation to `max_tokens` tokens makes of a `text` with the token
/// ids `ids`: the text itself where it has no more tokens than that; else
/// the decoding of its first `max_tokens` tokens; and where that fails, a
/// proportional prefix.
pub open spec fn cut_text(text: Seq<char>, ids: Seq<u32>, max_tokens: nat) -> Seq<char> {
    if ids.len() <= max_tokens {
        text
    } else {
        match decoded(budget_bpe(), ids.take(max_tokens as int)) {
            Some(t) => t,
            None => proportional_prefix(text, max_tokens, ids.len()),
        }
    }
}

/// What truncation to `max_tokens` tokens makes of `text`; a text that the
/// tokenizer cannot encode is left as it is.
pub open spec fn truncated_text(text: Seq<char>, max_tokens: nat) -> Seq<char> {
    match token_ids(text) {
        Some(ids) => cut_text(text, ids, max_tokens),
        None => text,
    }
}

/// Why a token counter could not be made.
#[derive(Debug, Clone)]
pub struct TokenizerError {
    /// What the tokenizer reported.
    pub message: String,
}

/// Counts and truncates text by tokens of the GPT-4 encoding.
pub struct TokenCounter {
    bpe: &'static tiktoken_rs::CoreBPE,
}

/// The fallback of truncation: a prefix of `text` in characters, in
/// proportion to `max_tokens / total_tokens`.
pub fn char_prefix(text: &str, max_tokens: usize, total_tokens: usize) -> (r: String)
    requires
        total_tokens > 0,
    ensures
        r@ == proportional_prefix(text@, max_tokens as nat, total_tokens as nat),
{
    let bytes: u128 = text.len() as u128;
    assert(bytes * (max_tokens as u128) <= u128::MAX) by (nonlinear_arith)
        requires
            bytes <= 0xffff_ffff_ffff_ffff,
            max_tokens <= 0xffff_ffff_ffff_ffff,
    ;
    let limit: u128 = (bytes * (max_tokens as u128)) / (total_tokens as u128);
    assert(bytes == byte_len(text@));
    assert(limit == (byte_len(text@) * (max_tokens as nat)) / (total_tokens as nat));
    let chars = chars_of(text);
    if limit >= chars.len() as u128 {
        string_of(&chars)
    } else {
        let mut kept: Vec<char> = Vec::new();
        let n: usize = limit as usize;
        let mut i: usize = 0;
        while i < n
            invariant
                i <= n < chars.len(),
                kept@ == chars@.take(i as int),
            decreases n - i,
        {
            kept.push(chars[i]);
            i += 1;
            assert(chars@.take(i as int) =~= chars@.take(i - 1).push(chars@[i - 1]));
        }
        string_of(&kept)
    }
}

impl TokenCounter {
    #[verifier::type_invariant]
    spec fn holds_budget_model(self) -> bool {
        model_bpe(budget_model()) == Some(*self.bpe)
    }

    /// A counter with the GPT-4 encoding. It is made exactly where the
    /// tokenizer finds a tokenizer for that model; otherwise the error holds
    /// the tokenizer's message.
    pub fn new() -> (r: Result<Self, TokenizerError>)
        ensures
            made_or_refused(r),
    {
        match load_bpe("gpt-4") {
            Ok(bpe) => Ok(TokenCounter { bpe }),
            Err(message) => Err(TokenizerError { message }),
        }
    }

    /// The token ids of `text`, or nothing where the tokenizer cannot
    /// encode it.
    pub fn encode_text(&self, text: &str) -> (r: Option<Vec<u32>>)
        ensures
            match r {
                Some(ids) => token_ids(text@) == Some(ids@),
                None => !countable(text@),
            },
    {
        proof {
            use_type_invariant(self);
        }
        encode(self.bpe, text)
    }

    /// The number of tokens of `text`, or nothing where the tokenizer
    /// cannot encode it.
    pub fn count_tokens(&self, text: &str) -> (r: Option<usize>)
        ensures
            match r {
                Some(n) => countable(text@) && n == token_count(text@),
                None => !countable(text@),
            },
    {
        match self.encode_text(text) {
            Some(ids) => Some(ids.len()),
            None => None,
        }
    }

    /// Cuts a `text` with the token ids `ids` to its first `max_tokens`
    /// tokens, and leaves a text of no more tokens as it is. Where the
    /// first tokens decode to no text, a prefix in proportion takes their
    /// place.
    pub fn cut_to_tokens(&self, text: &str, ids: Vec<u32>, max_tokens: usize) -> (r: String)
        ensures
            r@ == cut_text(text@, ids@, max_tokens as nat),
    {
        proof {
            use_type_invariant(self);
        }
        let mut ids = ids;
        let ghost all = ids@;
        let total = ids.len();
        if total <= max_tokens {
            return text.to_owned();
        }
        ids.truncate(max_tokens);
        assert(ids@ =~= all.take(max_tokens as int));
        match decode(self.bpe, &ids) {
            Some(cut) => cut,
            None => char_prefix(text, max_tokens, total),
        }
    }

    /// Cuts `text` to the first `max_tokens` tokens of its encoding, and
    /// leaves a text of no more tokens as it is. Where the first tokens
    /// decode to no text, a prefix in proportion takes their place. Gives
    /// nothing where the tokenizer cannot encode the text.
    pub fn truncate_to_token_limit(&self, text: &str, max_tokens: usize) -> (r: Option<String>)
        ensures
            match r {
                Some(cut) => countable(text@) && cut@ == truncated_text(text@, max_tokens as nat),
                None => !countable(text@),
            },
    {
        match self.encode_text(text) {
            Some(ids) => Some(self.cut_to_tokens(text, ids, max_tokens)),
            None => None,
        }
    }
}

/// A titled Markdown fragment that is admitted into the budget or left out
/// as a unit.
#[derive(Debug, Clone)]
pub struct ContentSection {
    /// The title shown in the table of contents.
    pub title: String,
    /// The Markdown body.
    pub content: String,
    /// The priority; a higher number is more important.
    pub priority: u8,
    /// Whether the body was cut to fit the budget.
    pub truncated: bool,
}

/// A section as contracts speak of it.
pub struct SectionView {
    pub title: Seq<char>,
    pub content: Seq<char>,
    pub priority: u8,
    pub truncated: bool,
}

impl View for ContentSection {
    type V = SectionView;

    open spec fn view(&self) -> SectionView {
        SectionView {
            title: self.title@,
            content: self.content@,
            priority: self.priority,
            truncated: self.truncated,
        }
    }
}

/// The views of a list of sections.
pub open spec fn section_views(v: Seq<ContentSection>) -> Seq<SectionView> {
    v.map_values(|s: ContentSection| s@)
}

impl ContentSection {
    /// A section with the given title, body and priority, not truncated.
    pub fn new(title: String, content: String, priority: u8) -> (r: Self)
        ensures
            r@ == (SectionView { title: title@, content: content@, priority, truncated: false }),
    {
        ContentSection { title, content, priority, truncated: false }
    }

    /// A section of priority 9.
    pub fn high_priority(title: String, content: String) -> (r: Self)
        ensures
            r@ == (SectionView { title: title@, content: content@, priority: 9, truncated: false }),
    {
        ContentSection::new(title, content, 9)
    }

    /// A section of priority 5.
    pub fn medium_priority(title: String, content: String) -> (r: Self)
        ensures
            r@ == (SectionView { title: title@, content: content@, priority: 5, truncated: false }),
    {
        ContentSection::new(title, content, 5)
    }

    /// A section of priority 1.
    pub fn low_priority(title: String, content: String) -> (r: Self)
        ensures
            r@ == (SectionView { title: title@, content: content@, priority: 1, truncated: false }),
    {
        ContentSection::new(title, content, 1)
    }

    /// A copy of the section.
    pub fn duplicate(&self) -> (r: Self)
        ensures
            r@ == self@,
    {
        ContentSection {
            title: self.title.clone(),
            content: self.content.clone(),
            priority: self.priority,
            truncated: self.truncated,
        }
    }
}

/// The sections among the first `n` of `s` that have priority `p`, in the
/// order of `s`.
pub open spec fn band_upto(s: Seq<SectionView>, p: int, n: int) -> Seq<SectionView>
    decreases n,
{
    if n <= 0 || n > s.len() {
        Seq::empty()
    } else if s[n - 1].priority == p {
        band_upto(s, p, n - 1).push(s[n - 1])
    } else {
        band_upto(s, p, n - 1)
    }
}

/// The sections of `s` with priority `p` or more: the higher priority
/// first, and sections of one priority in the order of `s`.
pub open spec fn bands_from(s: Seq<SectionView>, p: int) -> Seq<SectionView>
    decreases 256 - p,
{
    if p >= 256 {
        Seq::empty()
    } else {
        bands_from(s, p + 1) + band_upto(s, p, s.len() as int)
    }
}

/// `s` in descending order of priority, sections of equal priority keeping
/// their order.
pub open spec fn by_priority(s: Seq<SectionView>) -> Seq<SectionView> {
    bands_from(s, 0)
}

/// Orders sections by descending priority; equal priorities keep their order.
pub fn sort_by_priority(sections: Vec<ContentSection>) -> (sorted: Vec<ContentSection>)
    ensures
        section_views(sorted@) == by_priority(section_views(sections@)),
{
    let ghost all = section_views(sections@);
    let mut sorted: Vec<ContentSection> = Vec::new();
    let mut p: u16 = 256;
    assert(section_views(sorted@) =~= bands_from(all, 256));
    while p > 0
        invariant
            p <= 256,
            all == section_views(sections@),
            section_views(sorted@) == bands_from(all, p as int),
        decreases p,
    {
        p -= 1;
        let ghost done = section_views(sorted@);
        let mut i: usize = 0;
        while i < sections.len()
            invariant
                i <= sections.len(),
                p < 256,
                all == section_views(sections@),
                section_views(sorted@) == done + band_upto(all, p as int, i as int),
            decreases sections.len() - i,
        {
            let ghost before = section_views(sorted@);
            if sections[i].priority as u16 == p {
                sorted.push(sections[i].duplicate());
                assert(section_views(sorted@) =~= before.push(all[i as int]));
            }
            i += 1;
            assert(section_views(sorted@) =~= done + band_upto(all, p as int, i as int));
        }
    }
    sorted
}

/// What becomes of the next section in priority order.
#[derive(Debug, Clone, Copy, PartialEq, Eq, Structural)]
pub enum Admission {
    /// It fits and is admitted whole.
    Whole,
    /// It does not fit; it is cut to the tokens that remain, admitted, and
    /// admission ends.
    Cut,
    /// It does not fit and too little remains to cut it; admission ends.
    Stop,
}

/// The least number of remaining tokens for which a section is cut rather
/// than left out.
pub const MIN_CUT_TOKENS: usize = 100;

/// The fate of a section of `section_tokens` tokens when `room` tokens of
/// the budget remain.
pub open spec fn admission_of(section_tokens: nat, room: nat) -> Admission {
    if section_tokens <= room {
        Admission::Whole
    } else if room >= 100 {
        Admission::Cut
    } else {
        Admission::Stop
    }
}

/// Decides the fate of a section of `section_tokens` tokens when `room`
/// tokens of the budget remain.
pub fn admission(section_tokens: usize, room: usize) -> (a: Admission)
    ensures
        a == admission_of(section_tokens as nat, room as nat),
{
    if section_tokens <= room {
        Admission::Whole
    } else if room >= MIN_CUT_TOKENS {
        Admission::Cut
    } else {
        Admission::Stop
    }
}

/// `x` with its body cut to `room` tokens and marked as truncated.
pub open spec fn cut_section(x: SectionView, room: nat) -> SectionView {
    SectionView {
        title: x.title,
        content: truncated_text(x.content, room),
        priority: x.priority,
        truncated: true,
    }
}

/// The sections admitted from `s[i..]`, taken in order, into `room` tokens.
/// Admission ends at a section that does not fit, and at one that the
/// tokenizer cannot encode, which is left out.
pub open spec fn admit_from(s: Seq<SectionView>, i: int, room: nat) -> Seq<SectionView>
    decreases s.len() - i,
{
    if 0 <= i < s.len() && countable(s[i].content) {
        let t = token_count(s[i].content);
        match admission_of(t, room) {
            Admission::Whole => seq![s[i]] + admit_from(s, i + 1, (room - t) as nat),
            Admission::Cut => seq![cut_section(s[i], room)],
            Admission::Stop => Seq::empty(),
        }
    } else {
        Seq::empty()
    }
}

/// The sections of `s` admitted into a budget of `max_tokens` tokens.
pub open spec fn prioritized(s: Seq<SectionView>, max_tokens: nat) -> Seq<SectionView> {
    admit_from(by_priority(s), 0, max_tokens)
}

/// Admits sections into a token budget by priority.
pub struct ContentPrioritizer {
    token_counter: TokenCounter,
}

impl ContentPrioritizer {
    /// A prioritizer with a counter of its own. It is made exactly where the
    /// counter is; otherwise the error is that of the counter.
    pub fn new() -> (r: Result<Self, TokenizerError>)
        ensures
            made_or_refused(r),
    {
        match TokenCounter::new() {
            Ok(token_counter) => Ok(ContentPrioritizer { token_counter }),
            Err(e) => Err(e),
        }
    }

    /// Orders `sections` by descending priority and admits them in that
    /// order while they fit into `max_tokens`. The first that does not fit
    /// ends admission: it is cut to the remaining tokens and admitted where
    /// at least 100 tokens remain, and left out otherwise. A section that
    /// the tokenizer cannot encode ends admission too, and is left out.
    pub fn prioritize_content(&self, sections: Vec<ContentSection>, max_tokens: usize) -> (out:
        Vec<ContentSection>)
        ensures
            section_views(out@) == prioritized(section_views(sections@), max_tokens as nat),
    {
        let ghost input = section_views(sections@);
        let sorted = sort_by_priority(sections);
        let ghost all = section_views(sorted@);
        let mut out: Vec<ContentSection> = Vec::new();
        let mut room: usize = max_tokens;
        let mut i: usize = 0;
        assert(admit_from(all, 0, max_tokens as nat) =~= section_views(out@) + admit_from(
            all,
            0,
            max_tokens as nat,
        ));
        while i < sorted.len()
            invariant
                i <= sorted.len(),
                all == section_views(sorted@),
                all == by_priority(input),
                input == section_views(sections@),
                admit_from(all, 0, max_tokens as nat) == section_views(out@) + admit_from(
                    all,
                    i as int,
                    room as nat,
                ),
            decreases sorted.len() - i,
        {
            let section = &sorted[i];
            let ghost before = section_views(out@);
            let ids = match self.token_counter.encode_text(section.content.as_str()) {
                Some(ids) => ids,
                None => {
                    assert(admit_from(all, 0, max_tokens as nat) =~= section_views(out@));
                    return out;
                },
            };
            let tokens = ids.len();
            match admission(tokens, room) {
                Admission::Whole => {
                    out.push(section.duplicate());
                    room = room - tokens;
                    i += 1;
                    assert(section_views(out@) =~= before.push(all[i - 1]));
                    assert(admit_from(all, 0, max_tokens as nat) =~= section_views(out@)
                        + admit_from(all, i as int, room as nat));
                },
                Admission::Cut => {
                    let content = self.token_counter.cut_to_tokens(
                        section.content.as_str(),
                        ids,
                        room,
                    );
                    out.push(
                        ContentSection {
                            title: section.title.clone(),
                            content,
                            priority: section.priority,
                            truncated: true,
                        },
                    );
                    assert(section_views(out@) =~= before.push(
                        cut_section(all[i as int], room as nat),
                    ));
                    assert(admit_from(all, 0, max_tokens as nat) =~= section_views(out@));
                    return out;
                },
                Admission::Stop => {
                    assert(admit_from(all, 0, max_tokens as nat) =~= section_views(out@));
                    return out;
                },
            }
        }
        assert(admit_from(all, 0, max_tokens as nat) =~= section_views(out@));
        out
    }
}

/// Truncating a text to its own token count, or to more, leaves it unchanged.
pub proof fn lemma_truncate_to_own_count(text: Seq<char>, max_tokens: nat)
    requires
        max_tokens >= token_count(text),
    ensures
        truncated_text(text, max_tokens) == text,
        truncated_text(text, token_count(text)) == text,
{
}

/// Every section of a band has the priority of the band.
proof fn lemma_band_priority(s: Seq<SectionView>, p: int, n: int)
    ensures
        forall|k: int| 0 <= k < band_upto(s, p, n).len() ==> (#[trigger] band_upto(s, p, n)[k]).priority == p,
    decreases n,
{
    if n <= 0 || n > s.len() {
    } else {
        lemma_band_priority(s, p, n - 1);
        let prev = band_upto(s, p, n - 1);
        let cur = band_upto(s, p, n);
        assert forall|k: int| 0 <= k < cur.len() implies (#[trigger] cur[k]).priority == p by {
            if k < prev.len() {
                assert(cur[k] == prev[k]);
            }
        }
    }
}

/// The bands from `p` up hold priorities of `p` or more, in descending
/// order.
proof fn lemma_bands_descend(s: Seq<SectionView>, p: int)
    requires
        0 <= p <= 256,
    ensures
        forall|k: int| 0 <= k < bands_from(s, p).len() ==> (#[trigger] bands_from(s, p)[k]).priority >= p,
        forall|a: int, b: int|
            0 <= a <= b < bands_from(s, p).len() ==> (#[trigger] bands_from(s, p)[a]).priority >= (
            #[trigger] bands_from(s, p)[b]).priority,
    decreases 256 - p,
{
    if p < 256 {
        lemma_bands_descend(s, p + 1);
        lemma_band_priority(s, p, s.len() as int);
        let high = bands_from(s, p + 1);
        let band = band_upto(s, p, s.len() as int);
        let cur = bands_from(s, p);
        assert(cur == high + band);
        assert forall|k: int| 0 <= k < cur.len() implies (#[trigger] cur[k]).priority >= p by {
            if k < high.len() {
                assert(cur[k] == high[k]);
            } else {
                assert(cur[k] == band[k - high.len()]);
            }
        }
        assert forall|a: int, b: int| 0 <= a <= b < cur.len() implies (#[trigger] cur[a]).priority
            >= (#[trigger] cur[b]).priority by {
            if a < high.len() {
                assert(cur[a] == high[a]);
            } else {
                assert(cur[a] == band[a - high.len()]);
            }
            if b < high.len() {
                assert(cur[b] == high[b]);
            } else {
                assert(cur[b] == band[b - high.len()]);
            }
        }
    }
}

/// In the priority order no section stands before one of higher priority.
pub proof fn lemma_by_priority_descends(s: Seq<SectionView>)
    ensures
        forall|a: int, b: int|
            0 <= a <= b < by_priority(s).len() ==> (#[trigger] by_priority(s)[a]).priority >= (
            #[trigger] by_priority(s)[b]).priority,
{
    lemma_bands_descend(s, 0);
}

/// The tokens of the first `n` bodies of `r`, added up.
pub open spec fn tokens_upto(r: Seq<SectionView>, n: int) -> nat
    decreases n,
{
    if n <= 0 || n > r.len() {
        0
    } else {
        tokens_upto(r, n - 1) + token_count(r[n - 1].content)
    }
}

/// The tokens of the bodies of `r`, added up.
pub open spec fn total_tokens(r: Seq<SectionView>) -> nat {
    tokens_upto(r, r.len() as int)
}

/// The tokens of a list with one more section in front.
proof fn lemma_tokens_prepend(x: SectionView, rest: Seq<SectionView>, n: int)
    requires
        0 <= n <= rest.len(),
    ensures
        tokens_upto(seq![x] + rest, n + 1) == token_count(x.content) + tokens_upto(rest, n),
    decreases n,
{
    let all = seq![x] + rest;
    if n > 0 {
        lemma_tokens_prepend(x, rest, n - 1);
        assert(all[n] == rest[n - 1]);
    } else {
        assert(all[0] == x);
        assert(tokens_upto(all, 0) == 0);
    }
}

/// What is admitted from `s[i..]` holds no more tokens than the room,
/// where cutting keeps to the tokens it is given.
proof fn lemma_admit_within(s: Seq<SectionView>, i: int, room: nat)
    requires
        0 <= i <= s.len(),
        forall|k: int, n: nat|
            0 <= k < s.len() && n >= 100 ==> countable(
                #[trigger] truncated_text(s[k].content, n),
            ) && token_count(truncated_text(s[k].content, n)) <= n,
    ensures
        total_tokens(admit_from(s, i, room)) <= room,
    decreases s.len() - i,
{
    let r = admit_from(s, i, room);
    if i < s.len() && countable(s[i].content) {
        let t = token_count(s[i].content);
        match admission_of(t, room) {
            Admission::Whole => {
                let rest = admit_from(s, i + 1, (room - t) as nat);
                lemma_admit_within(s, i + 1, (room - t) as nat);
                lemma_tokens_prepend(s[i], rest, rest.len() as int);
                assert(r =~= seq![s[i]] + rest);
            },
            Admission::Cut => {
                assert(r =~= seq![cut_section(s[i], room)]);
                assert(tokens_upto(r, 0) == 0);
                assert(total_tokens(r) == token_count(truncated_text(s[i].content, room)));
            },
            Admission::Stop => {},
        }
    }
}

/// The admitted bodies together hold no more tokens than the budget,
/// provided that cutting a body of the input to 100 tokens or more leaves
/// a text that can be encoded and has no more tokens than it was cut to.
pub proof fn lemma_prioritized_within_budget(s: Seq<SectionView>, max_tokens: nat)
    requires
        forall|k: int, n: nat|
            0 <= k < by_priority(s).len() && n >= 100 ==> countable(
                #[trigger] truncated_text(by_priority(s)[k].content, n),
            ) && token_count(truncated_text(by_priority(s)[k].content, n)) <= n,
    ensures
        total_tokens(prioritized(s, max_tokens)) <= max_tokens,
{
    lemma_admit_within(by_priority(s), 0, max_tokens);
}

/// The bands of a single section.
proof fn lemma_bands_of_one(x: SectionView, p: int)
    requires
        0 <= p <= 256,
    ensures
        bands_from(seq![x], p) == if p <= x.priority {
            seq![x]
        } else {
            Seq::<SectionView>::empty()
        },
    decreases 256 - p,
{
    let s = seq![x];
    if p < 256 {
        lemma_bands_of_one(x, p + 1);
        assert(band_upto(s, p, 0) =~= Seq::<SectionView>::empty());
        assert(band_upto(s, p, 1) =~= if x.priority == p {
            seq![x]
        } else {
            Seq::<SectionView>::empty()
        });
        assert(bands_from(s, p) =~= if p <= x.priority {
            seq![x]
        } else {
            Seq::<SectionView>::empty()
        });
    }
}

/// A single section with more tokens than the budget is admitted cut to
/// the budget where the budget is 100 tokens or more, and left out
/// otherwise.
pub proof fn lemma_single_oversized(x: SectionView, max_tokens: nat)
    requires
        countable(x.content),
        token_count(x.content) > max_tokens,
    ensures
        max_tokens >= 100 ==> prioritized(seq![x], max_tokens) == seq![cut_section(x, max_tokens)],
        max_tokens < 100 ==> prioritized(seq![x], max_tokens) == Seq::<SectionView>::empty(),
{
    lemma_bands_of_one(x, 0);
}

/// Nothing is admitted from an empty list.
pub proof fn lemma_prioritized_empty(max_tokens: nat)
    ensures
        prioritized(Seq::<SectionView>::empty(), max_tokens) == Seq::<SectionView>::empty(),
{
    lemma_bands_empty(0);
    assert(prioritized(Seq::<SectionView>::empty(), max_tokens) =~= Seq::<SectionView>::empty());
}

/// The bands of no sections are empty.
proof fn lemma_bands_empty(p: int)
    requires
        0 <= p <= 256,
    ensures
        bands_from(Seq::<SectionView>::empty(), p) == Seq::<SectionView>::empty(),
    decreases 256 - p,
{
    if p < 256 {
        lemma_bands_empty(p + 1);
        assert(bands_from(Seq::<SectionView>::empty(), p) =~= Seq::<SectionView>::empty());
    }
}

/// The sections among the first `n` of `s` that have priority `p` or
/// more, each as often as it occurs.
pub open spec fn at_least_upto(s: Seq<SectionView>, p: int, n: int) -> Multiset<SectionView>
    decreases n,
{
    if n <= 0 || n > s.len() {
        Multiset::empty()
    } else if s[n - 1].priority >= p {
        at_least_upto(s, p, n - 1).insert(s[n - 1])
    } else {
        at_least_upto(s, p, n - 1)
    }
}

/// An empty list holds nothing.
proof fn lemma_empty_multiset()
    ensures
        Seq::<SectionView>::empty().to_multiset() == Multiset::<SectionView>::empty(),
{
    broadcast use vstd::seq_lib::group_to_multiset_ensures;
    broadcast use vstd::multiset::group_multiset_axioms;

    let m = Seq::<SectionView>::empty().to_multiset();
    assert(m.len() == 0);
    assert(m =~= Multiset::<SectionView>::empty());
}

/// The sections of priority `p` or more are those above `p` and the
/// band of `p`.
proof fn lemma_split_band(s: Seq<SectionView>, p: int, n: int)
    requires
        0 <= n <= s.len(),
    ensures
        at_least_upto(s, p, n) == at_least_upto(s, p + 1, n).add(
            band_upto(s, p, n).to_multiset(),
        ),
    decreases n,
{
    broadcast use vstd::multiset::group_multiset_axioms;

    if n > 0 {
        lemma_split_band(s, p, n - 1);
        if s[n - 1].priority == p {
            to_multiset_build(band_upto(s, p, n - 1), s[n - 1]);
        }
        assert(at_least_upto(s, p, n) =~= at_least_upto(s, p + 1, n).add(
            band_upto(s, p, n).to_multiset(),
        ));
    } else {
        lemma_empty_multiset();
        assert(at_least_upto(s, p, n) =~= at_least_upto(s, p + 1, n).add(
            band_upto(s, p, n).to_multiset(),
        ));
    }
}

/// No section has a priority above 255.
proof fn lemma_none_above(s: Seq<SectionView>, n: int)
    ensures
        at_least_upto(s, 256, n) == Multiset::<SectionView>::empty(),
    decreases n,
{
    if 0 < n <= s.len() {
        lemma_none_above(s, n - 1);
    }
}

/// The bands from `p` up hold the sections of priority `p` or more.
proof fn lemma_bands_hold(s: Seq<SectionView>, p: int)
    requires
        0 <= p <= 256,
    ensures
        bands_from(s, p).to_multiset() == at_least_upto(s, p, s.len() as int),
    decreases 256 - p,
{
    if p < 256 {
        lemma_bands_hold(s, p + 1);
        lemma_multiset_commutative(bands_from(s, p + 1), band_upto(s, p, s.len() as int));
        lemma_split_band(s, p, s.len() as int);
    } else {
        lemma_none_above(s, s.len() as int);
        lemma_empty_multiset();
    }
}

/// Every section has priority zero or more.
proof fn lemma_all_at_least_zero(s: Seq<SectionView>, n: int)
    requires
        0 <= n <= s.len(),
    ensures
        at_least_upto(s, 0, n) == s.take(n).to_multiset(),
    decreases n,
{
    if n > 0 {
        lemma_all_at_least_zero(s, n - 1);
        assert(s.take(n) =~= s.take(n - 1).push(s[n - 1]));
        to_multiset_build(s.take(n - 1), s[n - 1]);
    } else {
        lemma_empty_multiset();
        assert(s.take(0) =~= Seq::<SectionView>::empty());
    }
}

/// The priority order holds the sections of the input, each as often as
/// the input does, and no others.
pub proof fn lemma_by_priority_permutes(s: Seq<SectionView>)
    ensures
        by_priority(s).to_multiset() == s.to_multiset(),
        by_priority(s).len() == s.len(),
{
    broadcast use vstd::seq_lib::group_to_multiset_ensures;

    lemma_bands_hold(s, 0);
    lemma_all_at_least_zero(s, s.len() as int);
    assert(s.take(s.len() as int) =~= s);
    assert(by_priority(s).to_multiset().len() == by_priority(s).len());
    assert(s.to_multiset().len() == s.len());
}

/// The number of sections from `s[i..]` that are admitted whole into
/// `room` tokens.
pub open spec fn whole_count_from(s: Seq<SectionView>, i: int, room: nat) -> nat
    decreases s.len() - i,
{
    if 0 <= i < s.len() && countable(s[i].content) && token_count(s[i].content) <= room {
        1 + whole_count_from(s, i + 1, (room - token_count(s[i].content)) as nat)
    } else {
        0
    }
}

/// The tokens of the bodies of `s[from..to]`, added up.
pub open spec fn range_tokens(s: Seq<SectionView>, from: int, to: int) -> nat
    decreases to - from,
{
    if 0 <= from < to <= s.len() {
        token_count(s[from].content) + range_tokens(s, from + 1, to)
    } else {
        0
    }
}

/// Whether `r` is what admission into `room` tokens makes of `o`: its first
/// `w` sections, which are those that fit one after the other, unchanged;
/// and behind them either nothing, where `o` ends there, the next section
/// cannot be encoded or fewer than 100 tokens remain, or the next section
/// of `o` cut to the tokens that remain.
pub open spec fn admitted_shape(r: Seq<SectionView>, o: Seq<SectionView>, w: nat, room: nat) -> bool {
    let used = range_tokens(o, 0, w as int);
    &&& w <= o.len()
    &&& used <= room
    &&& w <= r.len() <= w + 1
    &&& forall|k: int| 0 <= k < w ==> r[k] == o[k]
    &&& w < o.len() ==> !countable(o[w as int].content) || token_count(o[w as int].content) > room
        - used
    &&& r.len() == w + 1 <==> w < o.len() && countable(o[w as int].content) && room - used >= 100
    &&& r.len() == w + 1 ==> r[w as int] == cut_section(o[w as int], (room - used) as nat)
}

/// The shape of what is admitted from `s[i..]`.
proof fn lemma_admit_shape(s: Seq<SectionView>, i: int, room: nat)
    requires
        0 <= i <= s.len(),
    ensures
        admitted_shape(admit_from(s, i, room), s.skip(i), whole_count_from(s, i, room), room),
    decreases s.len() - i,
{
    let r = admit_from(s, i, room);
    let o = s.skip(i);
    let w = whole_count_from(s, i, room);
    if i < s.len() {
        let t = token_count(s[i].content);
        assert(o[0] == s[i]);
        if countable(s[i].content) && t <= room {
            let rest = admit_from(s, i + 1, (room - t) as nat);
            let o2 = s.skip(i + 1);
            let w2 = whole_count_from(s, i + 1, (room - t) as nat);
            lemma_admit_shape(s, i + 1, (room - t) as nat);
            assert(r =~= seq![s[i]] + rest);
            assert(o2 =~= o.skip(1));
            lemma_range_shift(o, o2, 0, w2 as int);
            assert(range_tokens(o, 0, w as int) == t + range_tokens(o2, 0, w2 as int));
            assert forall|k: int| 0 <= k < w implies r[k] == o[k] by {
                if k > 0 {
                    assert(r[k] == rest[k - 1]);
                    assert(o[k] == o2[k - 1]);
                }
            }
            if w < o.len() {
                assert(o[w as int] == o2[w2 as int]);
            }
            if r.len() == w + 1 {
                assert(r[w as int] == rest[w2 as int]);
            }
        } else {
            assert(w == 0);
            assert(range_tokens(o, 0, 0) == 0);
        }
    } else {
        assert(range_tokens(o, 0, 0) == 0);
    }
}

/// The tokens of a range, counted in the list without its first section.
proof fn lemma_range_shift(o: Seq<SectionView>, o2: Seq<SectionView>, from: int, to: int)
    requires
        0 <= from <= to <= o2.len(),
        o2 == o.skip(1),
        o.len() > 0,
    ensures
        range_tokens(o, from + 1, to + 1) == range_tokens(o2, from, to),
    decreases to - from,
{
    if from < to {
        lemma_range_shift(o, o2, from + 1, to);
        assert(o[from + 1] == o2[from]);
    }
}

/// Admission keeps the sections that fit, one after the other in priority
/// order, unchanged, and they total no more than the budget. Behind them
/// stands at most the next section, cut to the tokens that remain, and
/// only where at least 100 remain.
pub proof fn lemma_prioritized_shape(s: Seq<SectionView>, max_tokens: nat)
    ensures
        admitted_shape(
            prioritized(s, max_tokens),
            by_priority(s),
            whole_count_from(by_priority(s), 0, max_tokens),
            max_tokens,
        ),
{
    lemma_admit_shape(by_priority(s), 0, max_tokens);
    assert(by_priority(s).skip(0) =~= by_priority(s));
}

/// A budget of no tokens admits nothing, where every body has a token.
pub proof fn lemma_zero_budget_admits_nothing(s: Seq<SectionView>)
    requires
        forall|k: int| 0 <= k < s.len() ==> token_count((#[trigger] s[k]).content) > 0,
    ensures
        prioritized(s, 0) == Seq::<SectionView>::empty(),
{
    broadcast use vstd::seq_lib::group_to_multiset_ensures;

    let o = by_priority(s);
    if o.len() > 0 {
        lemma_by_priority_permutes(s);
        assert(o.contains(o[0]));
        assert(s.to_multiset().count(o[0]) > 0);
        assert(s.contains(o[0]));
        let k = choose|k: int| 0 <= k < s.len() && s[k] == o[0];
        assert(token_count(s[k].content) > 0);
    }
}

/// Whether no section of `s` stands before one of higher priority.
pub open spec fn descending(s: Seq<SectionView>) -> bool {
    forall|a: int, b: int|
        0 <= a <= b < s.len() ==> (#[trigger] s[a]).priority >= (#[trigger] s[b]).priority
}

/// The number of sections among the first `n` of `s` that have priority
/// `p` or more.
pub open spec fn count_at_least(s: Seq<SectionView>, p: int, n: int) -> int
    decreases n,
{
    if n <= 0 || n > s.len() {
        0
    } else if s[n - 1].priority >= p {
        count_at_least(s, p, n - 1) + 1
    } else {
        count_at_least(s, p, n - 1)
    }
}

/// In a descending list the sections of priority `p` or more are the
/// first ones.
proof fn lemma_leading_count(s: Seq<SectionView>, p: int, n: int)
    requires
        descending(s),
        0 <= n <= s.len(),
    ensures
        0 <= count_at_least(s, p, n) <= n,
        forall|k: int| 0 <= k < n ==> ((#[trigger] s[k]).priority >= p <==> k < count_at_least(s, p, n)),
        n > 0 && s[n - 1].priority >= p ==> count_at_least(s, p, n) == n,
    decreases n,
{
    if n > 0 {
        lemma_leading_count(s, p, n - 1);
        let c = count_at_least(s, p, n - 1);
        if s[n - 1].priority >= p {
            if c < n - 1 {
                assert(s[c].priority >= s[n - 1].priority);
            }
        }
    }
}

/// In a descending list the band of `p` is the stretch between the
/// sections above `p` and those below.
proof fn lemma_band_is_stretch(s: Seq<SectionView>, p: int, n: int)
    requires
        descending(s),
        0 <= n <= s.len(),
    ensures
        count_at_least(s, p + 1, n) <= count_at_least(s, p, n),
        band_upto(s, p, n) == s.subrange(count_at_least(s, p + 1, n), count_at_least(s, p, n)),
    decreases n,
{
    lemma_leading_count(s, p, n);
    lemma_leading_count(s, p + 1, n);
    if n > 0 {
        lemma_band_is_stretch(s, p, n - 1);
        lemma_leading_count(s, p, n - 1);
        lemma_leading_count(s, p + 1, n - 1);
        if s[n - 1].priority >= p {
            // every earlier section has priority `p` or more as well
            assert(count_at_least(s, p, n - 1) == n - 1) by {
                if n - 1 > 0 {
                    assert(s[n - 2].priority >= s[n - 1].priority);
                }
            }
            if s[n - 1].priority > p {
                assert(count_at_least(s, p + 1, n - 1) == n - 1) by {
                    if n - 1 > 0 {
                        assert(s[n - 2].priority >= s[n - 1].priority);
                    }
                }
            }
        }
        assert(band_upto(s, p, n) =~= s.subrange(
            count_at_least(s, p + 1, n),
            count_at_least(s, p, n),
        ));
    } else {
        assert(band_upto(s, p, n) =~= s.subrange(0, 0));
    }
}

/// In a descending list the bands from `p` up are its first sections.
proof fn lemma_bands_are_prefix(s: Seq<SectionView>, p: int)
    requires
        descending(s),
        0 <= p <= 256,
    ensures
        bands_from(s, p) == s.take(count_at_least(s, p, s.len() as int)),
    decreases 256 - p,
{
    let n = s.len() as int;
    lemma_leading_count(s, p, n);
    if p < 256 {
        lemma_bands_are_prefix(s, p + 1);
        lemma_band_is_stretch(s, p, n);
        lemma_leading_count(s, p + 1, n);
        assert(bands_from(s, p) =~= s.take(count_at_least(s, p, n)));
    } else {
        assert(count_at_least(s, 256, n) == 0) by {
            if count_at_least(s, 256, n) > 0 {
                assert(s[0].priority >= 256);
            }
        }
        assert(bands_from(s, p) =~= s.take(0));
    }
}

/// A list that is descending already is its own priority order.
pub proof fn lemma_descending_is_kept(s: Seq<SectionView>)
    requires
        descending(s),
    ensures
        by_priority(s) == s,
{
    let n = s.len() as int;
    lemma_bands_are_prefix(s, 0);
    lemma_leading_count(s, 0, n);
    assert(count_at_least(s, 0, n) == n) by {
        if count_at_least(s, 0, n) < n {
            assert(s[count_at_least(s, 0, n)].priority >= 0);
        }
    }
    assert(s.take(n) =~= s);
}

/// Where the sections from `i` on can all be encoded and fit together,
/// all of them are admitted, unchanged.
proof fn lemma_admit_all(s: Seq<SectionView>, i: int, room: nat)
    requires
        0 <= i <= s.len(),
        forall|k: int| i <= k < s.len() ==> countable((#[trigger] s[k]).content),
        range_tokens(s, i, s.len() as int) <= room,
    ensures
        admit_from(s, i, room) == s.skip(i),
    decreases s.len() - i,
{
    if i < s.len() {
        let t = token_count(s[i].content);
        lemma_admit_all(s, i + 1, (room - t) as nat);
        assert(seq![s[i]] + s.skip(i + 1) =~= s.skip(i));
    } else {
        assert(s.skip(i) =~= Seq::<SectionView>::empty());
    }
}

/// Where every section can be encoded and their bodies together hold no
/// more tokens than the budget, all are admitted, unchanged, in priority
/// order.
pub proof fn lemma_all_admitted_where_all_fit(s: Seq<SectionView>, max_tokens: nat)
    requires
        forall|k: int|
            0 <= k < by_priority(s).len() ==> countable((#[trigger] by_priority(s)[k]).content),
        range_tokens(by_priority(s), 0, by_priority(s).len() as int) <= max_tokens,
    ensures
        prioritized(s, max_tokens) == by_priority(s),
{
    lemma_admit_all(by_priority(s), 0, max_tokens);
    assert(by_priority(s).skip(0) =~= by_priority(s));
}

/// The tokens of the first sections are no more than those of all.
proof fn lemma_range_grows(o: Seq<SectionView>, from: int, mid: int, to: int)
    requires
        0 <= from <= mid <= to <= o.len(),
    ensures
        range_tokens(o, from, mid) <= range_tokens(o, from, to),
    decreases mid - from,
{
    if from < mid {
        lemma_range_grows(o, from + 1, mid, to);
    }
}

/// Where the bodies together hold more tokens than the budget, a section
/// is left out or the last admitted one is marked as truncated; and every
/// admitted section but the last is the section at its place in priority
/// order, unchanged.
pub proof fn lemma_over_budget_shows(s: Seq<SectionView>, max_tokens: nat)
    requires
        range_tokens(by_priority(s), 0, by_priority(s).len() as int) > max_tokens,
    ensures
        prioritized(s, max_tokens).len() < by_priority(s).len() || prioritized(
            s,
            max_tokens,
        ).last().truncated,
        forall|k: int|
            0 <= k < prioritized(s, max_tokens).len() - 1 ==> prioritized(s, max_tokens)[k]
                == by_priority(s)[k],
{
    let o = by_priority(s);
    let w = whole_count_from(o, 0, max_tokens);
    lemma_prioritized_shape(s, max_tokens);
    if w == o.len() {
        assert(range_tokens(o, 0, w as int) <= max_tokens);
    }
    lemma_range_grows(o, 0, w as int, o.len() as int);
}

/// The proportional prefix of a text is a prefix of the text.
pub proof fn lemma_proportional_prefix_is_prefix(
    text: Seq<char>,
    max_tokens: nat,
    total_tokens: nat,
)
    requires
        total_tokens > 0,
    ensures
        proportional_prefix(text, max_tokens, total_tokens).is_prefix_of(text),
{
    let p = proportional_prefix(text, max_tokens, total_tokens);
    let bytes = byte_len(text);
    assert((bytes * max_tokens) / total_tokens >= 0) by (nonlinear_arith)
        requires
            bytes >= 0,
            max_tokens >= 0,
            total_tokens > 0,
    ;
    assert(p =~= text.subrange(0, p.len() as int));
}

} // verus!
