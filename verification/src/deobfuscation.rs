//! Deobfuscation pipelines: the steps that undo a hosting site's encodings,
//! and the extraction of links from what comes out.

use crate::codec::{
    b64_cleaned, b64_text, clean_base64, lowered, remove_each, rot13, rot13_text, safe_b64_decode,
    shift_chars, strip_patterns,
};
use crate::json::{
    filled_member, json_parse, json_text, lookup, member, open_value, parse_json, parse_value,
    value_tree, write_value, Json, Node, Tree,
};
use crate::links::{parse_url, url_parse};
use crate::markup::{element_attributes, element_texts, select_attributes, select_texts};
use crate::media::{choose_level, chosen_level, lemma_chosen_level};
use crate::patterns::{capture_first, first_capture, opt_texts, pattern_compiles, regex_valid};
use crate::provider::{
    ContentExtraction, DeobfuscationStep as StepDef, StepModel, UrlExtractionRule,
};
use crate::text::{
    clone_texts, contains, contains_any, join3, lower, opt_text, owned, same_text, split,
    str_contains, str_has_char, str_reverse, str_split, str_trim, str_without_char, texts,
    to_lowercase, trim, without_char,
};
use vstd::prelude::*;

verus! {

// ---------------------------------------------------------------------------
// Steps
// ---------------------------------------------------------------------------

/// A single deobfuscation step that transforms a text, or fails on it.
pub trait DeobfuscationStep {
    /// What the step makes of an input.
    spec fn output(&self, input: Seq<char>) -> Option<Seq<char>>;

    /// The step's name.
    spec fn label(&self) -> Seq<char>;

    /// Apply this step to the input.
    fn apply(&self, input: &str) -> (r: Option<String>)
        ensures
            opt_text(r) == self.output(input@),
    ;

    /// Human-readable name for logging.
    fn name(&self) -> (r: &str)
        ensures
            r@ == self.label(),
    ;
}

/// ROT13 substitution cipher (letters only).
#[derive(Debug, Clone, Copy)]
pub struct Rot13Step;

impl DeobfuscationStep for Rot13Step {
    open spec fn output(&self, input: Seq<char>) -> Option<Seq<char>> {
        step_output(StepModel::Rot13, input)
    }

    open spec fn label(&self) -> Seq<char> {
        step_label(StepModel::Rot13)
    }

    fn apply(&self, input: &str) -> (r: Option<String>) {
        Some(rot13(input))
    }

    fn name(&self) -> (r: &str) {
        "rot13"
    }
}

/// Removes separators.
#[derive(Debug, Clone)]
pub struct StripMarkersStep {
    /// Patterns to remove from the input.
    pub patterns: Vec<String>,
}

impl DeobfuscationStep for StripMarkersStep {
    open spec fn output(&self, input: Seq<char>) -> Option<Seq<char>> {
        step_output(StepModel::StripMarkers(texts(self.patterns@)), input)
    }

    open spec fn label(&self) -> Seq<char> {
        step_label(StepModel::StripMarkers(texts(self.patterns@)))
    }

    fn apply(&self, input: &str) -> (r: Option<String>) {
        Some(strip_patterns(input, &self.patterns))
    }

    fn name(&self) -> (r: &str) {
        "strip_markers"
    }
}

/// Standard Base64 decode with safe padding.
#[derive(Debug, Clone, Copy)]
pub struct Base64DecodeStep;

impl DeobfuscationStep for Base64DecodeStep {
    open spec fn output(&self, input: Seq<char>) -> Option<Seq<char>> {
        step_output(StepModel::Base64Decode, input)
    }

    open spec fn label(&self) -> Seq<char> {
        step_label(StepModel::Base64Decode)
    }

    fn apply(&self, input: &str) -> (r: Option<String>) {
        safe_b64_decode(input)
    }

    fn name(&self) -> (r: &str) {
        "base64_decode"
    }
}

/// Shifts code points down by a fixed amount.
#[derive(Debug, Clone, Copy)]
pub struct CharShiftStep {
    /// Amount to subtract from each code point.
    pub amount: u32,
}

impl DeobfuscationStep for CharShiftStep {
    open spec fn output(&self, input: Seq<char>) -> Option<Seq<char>> {
        step_output(StepModel::CharShift(self.amount), input)
    }

    open spec fn label(&self) -> Seq<char> {
        step_label(StepModel::CharShift(self.amount))
    }

    fn apply(&self, input: &str) -> (r: Option<String>) {
        Some(shift_chars(input, self.amount))
    }

    fn name(&self) -> (r: &str) {
        "char_shift"
    }
}

/// Reverses the text.
#[derive(Debug, Clone, Copy)]
pub struct ReverseStep;

impl DeobfuscationStep for ReverseStep {
    open spec fn output(&self, input: Seq<char>) -> Option<Seq<char>> {
        step_output(StepModel::Reverse, input)
    }

    open spec fn label(&self) -> Seq<char> {
        step_label(StepModel::Reverse)
    }

    fn apply(&self, input: &str) -> (r: Option<String>) {
        Some(str_reverse(input))
    }

    fn name(&self) -> (r: &str) {
        "reverse"
    }
}

/// Parses the text as JSON and takes the value at a key path.
#[derive(Debug, Clone)]
pub struct JsonParseStep {
    /// Key path with dot notation.
    pub key: String,
}

impl DeobfuscationStep for JsonParseStep {
    open spec fn output(&self, input: Seq<char>) -> Option<Seq<char>> {
        step_output(StepModel::JsonParse(self.key@), input)
    }

    open spec fn label(&self) -> Seq<char> {
        step_label(StepModel::JsonParse(self.key@))
    }

    fn apply(&self, input: &str) -> (r: Option<String>) {
        match parse_value(input) {
            Ok(value) => value_text_at(&value, self.key.as_str()),
            Err(_) => None,
        }
    }

    fn name(&self) -> (r: &str) {
        "json_parse"
    }
}

/// Takes the first capture group of a regex.
#[derive(Debug, Clone)]
pub struct RegexExtractStep {
    /// Regex pattern; one that does not compile matches nothing.
    pub pattern: String,
}

impl DeobfuscationStep for RegexExtractStep {
    open spec fn output(&self, input: Seq<char>) -> Option<Seq<char>> {
        step_output(StepModel::RegexExtract(self.pattern@), input)
    }

    open spec fn label(&self) -> Seq<char> {
        step_label(StepModel::RegexExtract(self.pattern@))
    }

    fn apply(&self, input: &str) -> (r: Option<String>) {
        capture(self.pattern.as_str(), input)
    }

    fn name(&self) -> (r: &str) {
        "regex_extract"
    }
}

/// Strips backslashes and pads Base64.
#[derive(Debug, Clone, Copy)]
pub struct CleanBase64Step;

impl DeobfuscationStep for CleanBase64Step {
    open spec fn output(&self, input: Seq<char>) -> Option<Seq<char>> {
        step_output(StepModel::CleanBase64, input)
    }

    open spec fn label(&self) -> Seq<char> {
        step_label(StepModel::CleanBase64)
    }

    fn apply(&self, input: &str) -> (r: Option<String>) {
        clean_base64(input)
    }

    fn name(&self) -> (r: &str) {
        "clean_base64"
    }
}

/// Strips underscores.
#[derive(Debug, Clone, Copy)]
pub struct StripUnderscoresStep;

impl DeobfuscationStep for StripUnderscoresStep {
    open spec fn output(&self, input: Seq<char>) -> Option<Seq<char>> {
        step_output(StepModel::StripUnderscores, input)
    }

    open spec fn label(&self) -> Seq<char> {
        step_label(StepModel::StripUnderscores)
    }

    fn apply(&self, input: &str) -> (r: Option<String>) {
        Some(str_without_char(input, '_'))
    }

    fn name(&self) -> (r: &str) {
        "strip_underscores"
    }
}

/// The value that `keys` lead to, one object member at a time.
pub open spec fn at_path(tree: Tree, keys: Seq<Seq<char>>) -> Option<Tree>
    decreases keys.len(),
{
    if keys.len() == 0 {
        Some(tree)
    } else {
        match member(tree, keys[0]) {
            Some(next) => at_path(next, keys.skip(1)),
            None => None,
        }
    }
}

/// A value as text: strings as they are, other values as JSON.
pub open spec fn value_as_text(tree: Tree) -> Option<Seq<char>> {
    match tree {
        Tree::Text(t) => Some(t),
        other => json_text(other),
    }
}

/// Group 1 of the first match of a pattern.
pub open spec fn captured(pattern: Seq<char>, text: Seq<char>) -> Option<Seq<char>> {
    match first_capture(pattern, text) {
        Some(group) => group,
        None => None,
    }
}

/// What a step makes of an input.
pub open spec fn step_output(step: StepModel, input: Seq<char>) -> Option<Seq<char>> {
    match step {
        StepModel::Rot13 => Some(rot13_text(input)),
        StepModel::StripMarkers(patterns) => Some(remove_each(input, patterns)),
        StepModel::Base64Decode => b64_text(input),
        StepModel::CharShift(amount) => Some(lowered(input, amount)),
        StepModel::Reverse => Some(input.reverse()),
        StepModel::JsonParse(key) => match json_parse(input) {
            Ok(tree) => match at_path(tree, split(key, '.')) {
                Some(value) => value_as_text(value),
                None => None,
            },
            Err(_) => None,
        },
        StepModel::RegexExtract(pattern) => captured(pattern, input),
        StepModel::CleanBase64 => b64_cleaned(input),
        StepModel::StripUnderscores => Some(without_char(input, '_')),
        StepModel::Custom(output, _) => output(input),
    }
}

/// The name of a step.
pub open spec fn step_label(step: StepModel) -> Seq<char> {
    match step {
        StepModel::Rot13 => "rot13"@,
        StepModel::StripMarkers(_) => "strip_markers"@,
        StepModel::Base64Decode => "base64_decode"@,
        StepModel::CharShift(_) => "char_shift"@,
        StepModel::Reverse => "reverse"@,
        StepModel::JsonParse(_) => "json_parse"@,
        StepModel::RegexExtract(_) => "regex_extract"@,
        StepModel::CleanBase64 => "clean_base64"@,
        StepModel::StripUnderscores => "strip_underscores"@,
        StepModel::Custom(_, label) => label,
    }
}

/// Group 1 of the first match of a pattern.
pub fn capture(pattern: &str, text: &str) -> (r: Option<String>)
    ensures
        opt_text(r) == captured(pattern@, text@),
{
    match capture_first(pattern, text) {
        Some(group) => group,
        None => None,
    }
}

/// The value at a dot-separated key path.
pub fn get_json_by_path<'a>(value: &'a Json, path: &str) -> (r: Option<&'a Json>)
    ensures
        match r {
            Some(v) => at_path(value@, split(path@, '.')) == Some(v@),
            None => at_path(value@, split(path@, '.')) is None,
        },
{
    let keys = str_split(path, '.');
    let ghost all = split(path@, '.');
    let mut current: &Json = value;
    let mut i: usize = 0;
    assert(all.skip(0) =~= all);
    while i < keys.len()
        invariant
            i <= keys@.len(),
            all == texts(keys@),
            all == split(path@, '.'),
            at_path(value@, all) == at_path(current@, all.skip(i as int)),
        decreases keys.len() - i,
    {
        assert(all.skip(i as int)[0] == keys@[i as int]@);
        assert(all.skip(i as int).skip(1) =~= all.skip(i + 1));
        match current.get(keys[i].as_str()) {
            Some(next) => {
                current = next;
            },
            None => {
                return None;
            },
        }
        i = i + 1;
    }
    Some(current)
}

/// The member `key` of a parsed document.
fn value_member<'a>(value: &'a serde_json::Value, key: &str) -> (r: Option<&'a serde_json::Value>)
    ensures
        match r {
            Some(v) => member(value_tree(*value), key@) == Some(value_tree(*v)),
            None => member(value_tree(*value), key@) is None,
        },
{
    match open_value(value) {
        Node::Object(fields) => {
            let ghost all = value_tree(*value)->Object_0;
            let mut i: usize = 0;
            assert(all.skip(0) =~= all);
            while i < fields.len()
                invariant
                    i <= fields@.len(),
                    value_tree(*value) == Tree::Object(all),
                    all.len() == fields@.len(),
                    forall|k: int|
                        0 <= k < all.len() ==> #[trigger] all[k] == (
                            fields@[k].0@,
                            value_tree(*fields@[k].1),
                        ),
                    lookup(all, key@) == lookup(all.skip(i as int), key@),
                decreases fields.len() - i,
            {
                assert(all.skip(i as int)[0] == all[i as int]);
                if same_text(fields[i].0.as_str(), key) {
                    return Some(fields[i].1);
                }
                assert(all.skip(i as int).skip(1) =~= all.skip(i + 1));
                i = i + 1;
            }
            None
        },
        _ => None,
    }
}

/// The value at a key path of a parsed document, as text.
fn value_text_at(value: &serde_json::Value, path: &str) -> (r: Option<String>)
    ensures
        opt_text(r) == match at_path(value_tree(*value), split(path@, '.')) {
            Some(v) => value_as_text(v),
            None => None,
        },
{
    let keys = str_split(path, '.');
    let ghost all = split(path@, '.');
    let mut current: &serde_json::Value = value;
    let mut i: usize = 0;
    assert(all.skip(0) =~= all);
    while i < keys.len()
        invariant
            i <= keys@.len(),
            all == texts(keys@),
            all == split(path@, '.'),
            at_path(value_tree(*value), all) == at_path(
                value_tree(*current),
                all.skip(i as int),
            ),
        decreases keys.len() - i,
    {
        assert(all.skip(i as int)[0] == keys@[i as int]@);
        assert(all.skip(i as int).skip(1) =~= all.skip(i + 1));
        match value_member(current, keys[i].as_str()) {
            Some(next) => {
                current = next;
            },
            None => {
                return None;
            },
        }
        i = i + 1;
    }
    match open_value(current) {
        Node::Text(t) => Some(t),
        _ => write_value(current),
    }
}

// ---------------------------------------------------------------------------
// Pipeline
// ---------------------------------------------------------------------------

/// Any of the deobfuscation steps, or one of a user's own.
pub enum Step {
    Rot13(Rot13Step),
    StripMarkers(StripMarkersStep),
    Base64Decode(Base64DecodeStep),
    CharShift(CharShiftStep),
    Reverse(ReverseStep),
    JsonParse(JsonParseStep),
    RegexExtract(RegexExtractStep),
    CleanBase64(CleanBase64Step),
    StripUnderscores(StripUnderscoresStep),
    Custom(Box<dyn DeobfuscationStep>),
}

impl View for Step {
    type V = StepModel;

    open spec fn view(&self) -> StepModel {
        match self {
            Step::Rot13(_) => StepModel::Rot13,
            Step::StripMarkers(s) => StepModel::StripMarkers(texts(s.patterns@)),
            Step::Base64Decode(_) => StepModel::Base64Decode,
            Step::CharShift(s) => StepModel::CharShift(s.amount),
            Step::Reverse(_) => StepModel::Reverse,
            Step::JsonParse(s) => StepModel::JsonParse(s.key@),
            Step::RegexExtract(s) => StepModel::RegexExtract(s.pattern@),
            Step::CleanBase64(_) => StepModel::CleanBase64,
            Step::StripUnderscores(_) => StepModel::StripUnderscores,
            Step::Custom(s) => StepModel::Custom(|input: Seq<char>| s.output(input), s.label()),
        }
    }
}

impl Step {
    /// Apply this step to the input.
    pub fn apply(&self, input: &str) -> (r: Option<String>)
        ensures
            opt_text(r) == step_output(self@, input@),
    {
        match self {
            Step::Rot13(s) => s.apply(input),
            Step::StripMarkers(s) => s.apply(input),
            Step::Base64Decode(s) => s.apply(input),
            Step::CharShift(s) => s.apply(input),
            Step::Reverse(s) => s.apply(input),
            Step::JsonParse(s) => s.apply(input),
            Step::RegexExtract(s) => s.apply(input),
            Step::CleanBase64(s) => s.apply(input),
            Step::StripUnderscores(s) => s.apply(input),
            Step::Custom(s) => s.apply(input),
        }
    }

    /// Human-readable name for logging.
    pub fn name(&self) -> (r: &str)
        ensures
            r@ == step_label(self@),
    {
        match self {
            Step::Rot13(s) => s.name(),
            Step::StripMarkers(s) => s.name(),
            Step::Base64Decode(s) => s.name(),
            Step::CharShift(s) => s.name(),
            Step::Reverse(s) => s.name(),
            Step::JsonParse(s) => s.name(),
            Step::RegexExtract(s) => s.name(),
            Step::CleanBase64(s) => s.name(),
            Step::StripUnderscores(s) => s.name(),
            Step::Custom(s) => s.name(),
        }
    }
}

/// The outcome of a chain of steps: each works on what the one before gave,
/// and the chain fails with the first step that does.
pub open spec fn chain_output(steps: Seq<StepModel>, input: Seq<char>) -> Option<Seq<char>>
    decreases steps.len(),
{
    if steps.len() == 0 {
        Some(input)
    } else {
        match step_output(steps[0], input) {
            Some(next) => chain_output(steps.skip(1), next),
            None => None,
        }
    }
}

/// Whether a step can be built: a regex must compile.
pub open spec fn buildable(step: StepModel) -> bool {
    step matches StepModel::RegexExtract(pattern) ==> regex_valid(pattern)
}

/// The steps of the definitions that can be built, in order.
pub open spec fn built(defs: Seq<StepDef>) -> Seq<StepModel>
    decreases defs.len(),
{
    if defs.len() == 0 {
        Seq::empty()
    } else if buildable(defs.last()@) {
        built(defs.drop_last()).push(defs.last()@)
    } else {
        built(defs.drop_last())
    }
}

/// An ordered chain of deobfuscation steps.
pub struct DeobfuscationPipeline {
    steps: Vec<Step>,
}

impl View for DeobfuscationPipeline {
    type V = Seq<StepModel>;

    closed spec fn view(&self) -> Seq<StepModel> {
        Seq::new(self.steps@.len(), |i: int| self.steps@[i]@)
    }
}

impl Default for DeobfuscationPipeline {
    fn default() -> (r: Self)
        ensures
            r@ == Seq::<StepModel>::empty(),
    {
        DeobfuscationPipeline::new()
    }
}

impl DeobfuscationPipeline {
    /// Create an empty pipeline.
    pub fn new() -> (r: Self)
        ensures
            r@ == Seq::<StepModel>::empty(),
    {
        let r = DeobfuscationPipeline { steps: Vec::new() };
        assert(r@ =~= Seq::<StepModel>::empty());
        r
    }

    /// Add a step to the end of the pipeline.
    pub fn add_step(&mut self, step: Step)
        ensures
            final(self)@ == old(self)@.push(step@),
    {
        self.steps.push(step);
        assert(self@ =~= old(self)@.push(step@));
    }

    /// Run the pipeline on the given input.
    pub fn run(&self, input: &str) -> (r: Option<String>)
        ensures
            opt_text(r) == chain_output(self@, input@),
    {
        let mut current = owned(input);
        let mut i: usize = 0;
        assert(self@.skip(0) =~= self@);
        while i < self.steps.len()
            invariant
                i <= self.steps@.len() == self@.len(),
                chain_output(self@, input@) == chain_output(self@.skip(i as int), current@),
            decreases self.steps.len() - i,
        {
            assert(self@.skip(i as int)[0] == self.steps@[i as int]@);
            assert(self@.skip(i as int).skip(1) =~= self@.skip(i + 1));
            match self.steps[i].apply(current.as_str()) {
                Some(next) => {
                    current = next;
                },
                None => {
                    return None;
                },
            }
            i = i + 1;
        }
        Some(current)
    }

    /// Number of steps in the pipeline.
    pub fn len(&self) -> (r: usize)
        ensures
            r == self@.len(),
    {
        self.steps.len()
    }

    /// Whether the pipeline is empty.
    pub fn is_empty(&self) -> (r: bool)
        ensures
            r == (self@.len() == 0),
    {
        self.steps.len() == 0
    }
}

/// Build a single step from a step definition; fails on a regex that does not
/// compile.
pub fn build_step(def: &StepDef) -> (r: Option<Step>)
    ensures
        r is Some <==> buildable(def@),
        r is Some ==> r->0@ == def@,
{
    match def {
        StepDef::Rot13 => Some(Step::Rot13(Rot13Step)),
        StepDef::StripMarkers { patterns } => Some(
            Step::StripMarkers(StripMarkersStep { patterns: clone_texts(patterns) }),
        ),
        StepDef::Base64Decode => Some(Step::Base64Decode(Base64DecodeStep)),
        StepDef::CharShift { amount } => Some(Step::CharShift(CharShiftStep { amount: *amount })),
        StepDef::Reverse => Some(Step::Reverse(ReverseStep)),
        StepDef::JsonParse { key } => Some(
            Step::JsonParse(JsonParseStep { key: owned(key.as_str()) }),
        ),
        StepDef::RegexExtract { pattern } => if pattern_compiles(pattern.as_str()) {
            Some(Step::RegexExtract(RegexExtractStep { pattern: owned(pattern.as_str()) }))
        } else {
            None
        },
        StepDef::CleanBase64 => Some(Step::CleanBase64(CleanBase64Step)),
        StepDef::StripUnderscores => Some(Step::StripUnderscores(StripUnderscoresStep)),
    }
}

/// Build a pipeline from step definitions, passing over those that cannot be
/// built.
pub fn build_pipeline(step_defs: &[StepDef]) -> (r: DeobfuscationPipeline)
    ensures
        r@ == built(step_defs@),
{
    let mut pipeline = DeobfuscationPipeline::new();
    let mut i: usize = 0;
    while i < step_defs.len()
        invariant
            i <= step_defs@.len(),
            pipeline@ == built(step_defs@.take(i as int)),
        decreases step_defs.len() - i,
    {
        assert(step_defs@.take(i + 1).drop_last() =~= step_defs@.take(i as int));
        match build_step(&step_defs[i]) {
            Some(step) => pipeline.add_step(step),
            None => {},
        }
        i = i + 1;
    }
    assert(step_defs@.take(step_defs@.len() as int) =~= step_defs@);
    pipeline
}

// ---------------------------------------------------------------------------
// Content extraction
// ---------------------------------------------------------------------------

/// The first text, from `i` on, that is not blank, trimmed.
pub open spec fn first_filled(found: Seq<Seq<char>>, i: int) -> Option<Seq<char>>
    decreases found.len() - i,
{
    if i < 0 || i >= found.len() {
        None
    } else if trim(found[i]).len() > 0 {
        Some(trim(found[i]))
    } else {
        first_filled(found, i + 1)
    }
}

/// The first value, from `i` on, that is there and not empty.
pub open spec fn first_present(found: Seq<Option<Seq<char>>>, i: int) -> Option<Seq<char>>
    decreases found.len() - i,
{
    if i < 0 || i >= found.len() {
        None
    } else if found[i] is Some && found[i]->0.len() > 0 {
        found[i]
    } else {
        first_present(found, i + 1)
    }
}

/// The obfuscated data that an extraction finds in a page.
pub open spec fn content(html: Seq<char>, extraction: ContentExtraction) -> Option<Seq<char>>
    decreases extraction,
{
    match extraction {
        ContentExtraction::ScriptJsonTag => match element_texts(
            html,
            "script[type='application/json']"@,
        ) {
            Some(found) => first_filled(found, 0),
            None => None,
        },
        ContentExtraction::JsVariable { pattern } => captured(pattern@, html),
        ContentExtraction::CssSelector { selector, attribute } => match attribute {
            Some(name) => match element_attributes(html, selector@, name@) {
                Some(found) => first_present(found, 0),
                None => None,
            },
            None => match element_texts(html, selector@) {
                Some(found) => first_filled(found, 0),
                None => None,
            },
        },
        ContentExtraction::RegexMatch { pattern } => captured(pattern@, html),
        ContentExtraction::JsRedirectThen { inner } => content(html, *inner),
    }
}

/// The first text that is not blank, trimmed.
pub fn first_filled_text(found: &Vec<String>) -> (r: Option<String>)
    ensures
        opt_text(r) == first_filled(texts(found@), 0),
{
    let mut i: usize = 0;
    while i < found.len()
        invariant
            i <= found@.len(),
            first_filled(texts(found@), 0) == first_filled(texts(found@), i as int),
        decreases found.len() - i,
    {
        assert(texts(found@)[i as int] == found@[i as int]@);
        let trimmed = str_trim(found[i].as_str());
        if !trimmed.as_str().is_empty() {
            return Some(trimmed);
        }
        i = i + 1;
    }
    None
}

/// The first value that is there and not empty.
pub fn first_present_value(found: &Vec<Option<String>>) -> (r: Option<String>)
    ensures
        opt_text(r) == first_present(opt_texts(found@), 0),
{
    let mut i: usize = 0;
    while i < found.len()
        invariant
            i <= found@.len(),
            first_present(opt_texts(found@), 0) == first_present(opt_texts(found@), i as int),
        decreases found.len() - i,
    {
        assert(opt_texts(found@)[i as int] == opt_text(found@[i as int]));
        match &found[i] {
            Some(value) => {
                if !value.as_str().is_empty() {
                    return Some(owned(value.as_str()));
                }
            },
            None => {},
        }
        i = i + 1;
    }
    None
}

/// Extract obfuscated data from HTML using a content extraction method.
pub fn extract_content(html: &str, extraction: &ContentExtraction) -> (r: Option<String>)
    ensures
        opt_text(r) == content(html@, *extraction),
    decreases extraction,
{
    match extraction {
        ContentExtraction::ScriptJsonTag => match select_texts(
            html,
            "script[type='application/json']",
        ) {
            Some(found) => first_filled_text(&found),
            None => None,
        },
        ContentExtraction::JsVariable { pattern } => capture(pattern.as_str(), html),
        ContentExtraction::CssSelector { selector, attribute } => match attribute {
            Some(name) => match select_attributes(html, selector.as_str(), name.as_str()) {
                Some(found) => first_present_value(&found),
                None => None,
            },
            None => match select_texts(html, selector.as_str()) {
                Some(found) => first_filled_text(&found),
                None => None,
            },
        },
        ContentExtraction::RegexMatch { pattern } => capture(pattern.as_str(), html),
        ContentExtraction::JsRedirectThen { inner } => extract_content(html, inner),
    }
}

// ---------------------------------------------------------------------------
// Links in deobfuscated data
// ---------------------------------------------------------------------------

/// Result of extracting a URL from deobfuscated data.
#[derive(Debug, Clone)]
pub struct ExtractedUrl {
    /// The media URL.
    pub url: String,
    /// The request token, where the data has one.
    pub request_token: Option<String>,
    /// The file code, where the data has one.
    pub file_code: Option<String>,
}

/// Whether some lowercased filename stands in the lowercased source.
pub open spec fn bait_name(source: Seq<char>, filenames: Seq<Seq<char>>) -> bool {
    exists|i: int| 0 <= i < filenames.len() && contains(lower(source), lower(#[trigger] filenames[i]))
}

/// Whether the source is a URL whose host holds one of the domains.
pub open spec fn bait_host(source: Seq<char>, domains: Seq<Seq<char>>) -> bool {
    match url_parse(source) {
        Ok(parts) => match parts.host {
            Some(host) => contains_any(host, domains),
            None => false,
        },
        Err(_) => false,
    }
}

/// Whether a link is a decoy.
pub open spec fn is_bait(
    source: Seq<char>,
    domains: Seq<Seq<char>>,
    filenames: Seq<Seq<char>>,
) -> bool {
    bait_name(source, filenames) || bait_host(source, domains)
}

/// Whether a link names an HLS playlist.
pub open spec fn is_hls(url: Seq<char>) -> bool {
    contains(lower(url), ".m3u8"@)
}

/// Preference among quality labels: lower comes first.
pub open spec fn quality_rank(label: Seq<char>) -> int {
    if label == "720"@ {
        0
    } else if label == "480"@ {
        1
    } else if label == "360"@ {
        2
    } else if label == "240"@ {
        3
    } else if label == "1080"@ {
        4
    } else {
        5
    }
}

/// The index, below `n`, of the first link with the best rank.
pub open spec fn best_ranked(links: Seq<(Seq<char>, Seq<char>)>, n: int) -> int
    decreases n,
{
    if n <= 1 {
        0
    } else {
        let before = best_ranked(links, n - 1);
        if quality_rank(links[n - 1].0) < quality_rank(links[before].0) {
            n - 1
        } else {
            before
        }
    }
}

/// The quality levels, among the first `n` members, whose link is usable and
/// is, or is not, an HLS playlist.
pub open spec fn quality_links(
    fields: Seq<(Seq<char>, Tree)>,
    n: int,
    hls: bool,
    domains: Seq<Seq<char>>,
    filenames: Seq<Seq<char>>,
) -> Seq<(Seq<char>, Seq<char>)>
    decreases n,
{
    if n <= 0 {
        Seq::empty()
    } else {
        let before = quality_links(fields, n - 1, hls, domains, filenames);
        match fields[n - 1].1 {
            Tree::Text(url) => if url.len() > 0 && !is_bait(url, domains, filenames) && is_hls(url)
                == hls {
                before.push((fields[n - 1].0, url))
            } else {
                before
            },
            _ => before,
        }
    }
}

/// The link that a JSON value holds: a string, or the best of its quality
/// levels, by preference among those that the CDN serves fast enough. Where MP4
/// is preferred, HLS playlists are skipped.
pub open spec fn value_link(
    value: Tree,
    prefer_mp4: bool,
    domains: Seq<Seq<char>>,
    filenames: Seq<Seq<char>>,
) -> Option<Seq<char>> {
    match value {
        Tree::Text(url) => if url.len() > 0 && !is_bait(url, domains, filenames) && !(prefer_mp4
            && is_hls(url)) {
            Some(url)
        } else {
            None
        },
        Tree::Object(fields) => {
            let n = fields.len() as int;
            let mp4 = quality_links(fields, n, false, domains, filenames);
            let hls = quality_links(fields, n, true, domains, filenames);
            if prefer_mp4 {
                if mp4.len() > 0 {
                    Some(mp4[chosen_level(mp4)].1)
                } else {
                    None
                }
            } else if hls.len() > 0 {
                Some(hls[chosen_level(hls)].1)
            } else if mp4.len() > 0 {
                Some(mp4[chosen_level(mp4)].1)
            } else {
                None
            }
        },
        _ => None,
    }
}

/// Whether a link already carries an `rq` parameter.
pub open spec fn has_rq(url: Seq<char>) -> bool {
    contains(url, "&rq="@) || contains(url, "?rq="@)
}

/// The link with the request token as `rq` parameter, where it has none yet.
pub open spec fn with_rq(url: Seq<char>, token: Seq<char>) -> Seq<char> {
    if has_rq(url) || token.len() == 0 {
        url
    } else if url.contains('?') {
        url + "&rq="@ + token
    } else {
        url + "?rq="@ + token
    }
}

/// Place of a rule in the order of trying.
pub open spec fn rule_priority(rule: UrlExtractionRule) -> u32 {
    match rule {
        UrlExtractionRule::JsonKey { priority, .. } => priority,
        UrlExtractionRule::RegexUrl { priority, .. } => priority,
    }
}

/// The link that a rule finds in a document and its text.
pub open spec fn rule_link(
    tree: Tree,
    text: Seq<char>,
    rule: UrlExtractionRule,
    domains: Seq<Seq<char>>,
    filenames: Seq<Seq<char>>,
) -> Option<Seq<char>> {
    match rule {
        UrlExtractionRule::JsonKey { key, append_rq_token, prefer_mp4, .. } => match member(
            tree,
            key@,
        ) {
            Some(value) => match value_link(value, prefer_mp4, domains, filenames) {
                Some(url) => match filled_member(tree, "request"@) {
                    Some(token) if append_rq_token => Some(with_rq(url, token)),
                    _ => Some(url),
                },
                None => None,
            },
            None => None,
        },
        UrlExtractionRule::RegexUrl { pattern, .. } => match captured(pattern@, text) {
            Some(url) => if is_bait(url, domains, filenames) {
                None
            } else {
                Some(url)
            },
            None => None,
        },
    }
}

/// The index, below `n`, of the rule that is tried first among those that find
/// a link: the lowest priority number, then the earliest.
pub open spec fn winning_rule(
    tree: Tree,
    text: Seq<char>,
    rules: Seq<UrlExtractionRule>,
    n: int,
    domains: Seq<Seq<char>>,
    filenames: Seq<Seq<char>>,
) -> Option<int>
    decreases n,
{
    if n <= 0 {
        None
    } else {
        let before = winning_rule(tree, text, rules, n - 1, domains, filenames);
        if rule_link(tree, text, rules[n - 1], domains, filenames) is Some && (before is None
            || rule_priority(rules[n - 1]) < rule_priority(rules[before->0])) {
            Some(n - 1)
        } else {
            before
        }
    }
}

/// What is extracted from a document and its text.
pub open spec fn picked(
    tree: Tree,
    text: Seq<char>,
    rules: Seq<UrlExtractionRule>,
    domains: Seq<Seq<char>>,
    filenames: Seq<Seq<char>>,
) -> Option<Seq<char>> {
    if !(tree is Object) {
        None
    } else {
        match winning_rule(tree, text, rules, rules.len() as int, domains, filenames) {
            Some(k) => rule_link(tree, text, rules[k], domains, filenames),
            None => None,
        }
    }
}

/// Check if a URL is a bait source.
pub fn is_bait_source(source: &str, bait_domains: &[String], bait_filenames: &[String]) -> (r: bool)
    ensures
        r == is_bait(source@, texts(bait_domains@), texts(bait_filenames@)),
{
    let source_lower = to_lowercase(source);
    let mut i: usize = 0;
    while i < bait_filenames.len()
        invariant
            i <= bait_filenames@.len(),
            source_lower@ == lower(source@),
            forall|k: int|
                0 <= k < i ==> !contains(
                    lower(source@),
                    lower(#[trigger] texts(bait_filenames@)[k]),
                ),
        decreases bait_filenames.len() - i,
    {
        let name = to_lowercase(bait_filenames[i].as_str());
        if str_contains(source_lower.as_str(), name.as_str()) {
            assert(texts(bait_filenames@)[i as int] == bait_filenames@[i as int]@);
            return true;
        }
        i = i + 1;
    }
    match parse_url(source) {
        Ok(parts) => match parts.host {
            Some(host) => host_has_any(host.as_str(), bait_domains),
            None => false,
        },
        Err(_) => false,
    }
}

fn host_has_any(host: &str, domains: &[String]) -> (r: bool)
    ensures
        r == contains_any(host@, texts(domains@)),
{
    let mut i: usize = 0;
    while i < domains.len()
        invariant
            i <= domains@.len(),
            forall|k: int| 0 <= k < i ==> !contains(host@, #[trigger] texts(domains@)[k]),
        decreases domains.len() - i,
    {
        if str_contains(host, domains[i].as_str()) {
            assert(texts(domains@)[i as int] == domains@[i as int]@);
            return true;
        }
        i = i + 1;
    }
    false
}

/// Whether a link names an HLS playlist.
pub fn is_hls_url(url: &str) -> (r: bool)
    ensures
        r == is_hls(url@),
{
    let url_lower = to_lowercase(url);
    str_contains(url_lower.as_str(), ".m3u8")
}

/// Preference among quality labels: lower comes first.
pub fn rank_of_quality(label: &str) -> (r: u8)
    ensures
        r == quality_rank(label@),
{
    if same_text(label, "720") {
        0
    } else if same_text(label, "480") {
        1
    } else if same_text(label, "360") {
        2
    } else if same_text(label, "240") {
        3
    } else if same_text(label, "1080") {
        4
    } else {
        5
    }
}

/// The index of the first link with the best rank.
pub fn best_ranked_link(links: &Vec<(String, String)>) -> (r: usize)
    requires
        links@.len() > 0,
    ensures
        r == best_ranked(crate::text::text_pairs(links@), links@.len() as int),
        r < links@.len(),
{
    let ghost all = crate::text::text_pairs(links@);
    let mut best: usize = 0;
    let mut i: usize = 1;
    while i < links.len()
        invariant
            1 <= i <= links@.len(),
            best < i,
            all == crate::text::text_pairs(links@),
            best == best_ranked(all, i as int),
        decreases links.len() - i,
    {
        assert(all[i as int].0 == links@[i as int].0@);
        assert(all[best as int].0 == links@[best as int].0@);
        if rank_of_quality(links[i].0.as_str()) < rank_of_quality(links[best].0.as_str()) {
            best = i;
        }
        i = i + 1;
    }
    best
}

fn gather_quality_links(
    fields: &Vec<(String, Json)>,
    hls: bool,
    bait_domains: &[String],
    bait_filenames: &[String],
    Ghost(all): Ghost<Seq<(Seq<char>, Tree)>>,
) -> (r: Vec<(String, String)>)
    requires
        all.len() == fields@.len(),
        forall|k: int|
            0 <= k < all.len() ==> #[trigger] all[k] == (fields@[k].0@, fields@[k].1@),
    ensures
        crate::text::text_pairs(r@) == quality_links(
            all,
            all.len() as int,
            hls,
            texts(bait_domains@),
            texts(bait_filenames@),
        ),
{
    let mut r: Vec<(String, String)> = Vec::new();
    let mut i: usize = 0;
    assert(crate::text::text_pairs(r@) =~= Seq::empty());
    while i < fields.len()
        invariant
            i <= fields@.len() == all.len(),
            forall|k: int|
                0 <= k < all.len() ==> #[trigger] all[k] == (fields@[k].0@, fields@[k].1@),
            crate::text::text_pairs(r@) == quality_links(
                all,
                i as int,
                hls,
                texts(bait_domains@),
                texts(bait_filenames@),
            ),
        decreases fields.len() - i,
    {
        assert(all[i as int] == (fields@[i as int].0@, fields@[i as int].1@));
        match &fields[i].1 {
            Json::Text(url) => {
                if !url.as_str().is_empty() && !is_bait_source(
                    url.as_str(),
                    bait_domains,
                    bait_filenames,
                ) && is_hls_url(url.as_str()) == hls {
                    let ghost before = crate::text::text_pairs(r@);
                    let label = owned(fields[i].0.as_str());
                    let link = owned(url.as_str());
                    r.push((label, link));
                    assert(crate::text::text_pairs(r@) =~= before.push((label@, link@)));
                }
            },
            _ => {},
        }
        i = i + 1;
    }
    r
}

/// Extract a URL from a JSON value, handling strings and quality-level
/// objects. Where MP4 is preferred, HLS playlists are skipped.
pub fn extract_url_from_json_value(
    value: &Json,
    prefer_mp4: bool,
    bait_domains: &[String],
    bait_filenames: &[String],
) -> (r: Option<String>)
    ensures
        opt_text(r) == value_link(
            value@,
            prefer_mp4,
            texts(bait_domains@),
            texts(bait_filenames@),
        ),
{
    match value {
        Json::Text(url) => {
            if !url.as_str().is_empty() && !is_bait_source(
                url.as_str(),
                bait_domains,
                bait_filenames,
            ) && !(prefer_mp4 && is_hls_url(url.as_str())) {
                Some(owned(url.as_str()))
            } else {
                None
            }
        },
        Json::Object(fields) => {
            let ghost all = value@->Object_0;
            let mp4 = gather_quality_links(fields, false, bait_domains, bait_filenames, Ghost(all));
            if prefer_mp4 {
                if mp4.len() > 0 {
                    let k: usize = choose_level(&mp4);
                    return Some(owned(mp4[k].1.as_str()));
                }
                return None;
            }
            let hls = gather_quality_links(fields, true, bait_domains, bait_filenames, Ghost(all));
            if hls.len() > 0 {
                let k: usize = choose_level(&hls);
                Some(owned(hls[k].1.as_str()))
            } else if mp4.len() > 0 {
                let k: usize = choose_level(&mp4);
                Some(owned(mp4[k].1.as_str()))
            } else {
                None
            }
        },
        _ => None,
    }
}

/// Append the `rq` parameter to a URL if not already present.
pub fn append_rq(url: &str, token: &str) -> (r: String)
    ensures
        r@ == with_rq(url@, token@),
{
    if str_contains(url, "&rq=") || str_contains(url, "?rq=") || token.is_empty() {
        owned(url)
    } else if str_has_char(url, '?') {
        join3(url, "&rq=", token)
    } else {
        join3(url, "?rq=", token)
    }
}

/// The link that a rule finds in a document and its text.
pub fn apply_rule(
    document: &Json,
    text: &str,
    rule: &UrlExtractionRule,
    bait_domains: &[String],
    bait_filenames: &[String],
) -> (r: Option<String>)
    ensures
        opt_text(r) == rule_link(
            document@,
            text@,
            *rule,
            texts(bait_domains@),
            texts(bait_filenames@),
        ),
{
    match rule {
        UrlExtractionRule::JsonKey { key, append_rq_token, prefer_mp4, .. } => match document.get(
            key.as_str(),
        ) {
            Some(value) => match extract_url_from_json_value(
                value,
                *prefer_mp4,
                bait_domains,
                bait_filenames,
            ) {
                Some(url) => match document.get_filled("request") {
                    Some(token) => if *append_rq_token {
                        Some(append_rq(url.as_str(), token.as_str()))
                    } else {
                        Some(url)
                    },
                    None => Some(url),
                },
                None => None,
            },
            None => None,
        },
        UrlExtractionRule::RegexUrl { pattern, .. } => match capture(pattern.as_str(), text) {
            Some(url) => if is_bait_source(url.as_str(), bait_domains, bait_filenames) {
                None
            } else {
                Some(url)
            },
            None => None,
        },
    }
}

fn priority_of(rule: &UrlExtractionRule) -> (r: u32)
    ensures
        r == rule_priority(*rule),
{
    match rule {
        UrlExtractionRule::JsonKey { priority, .. } => *priority,
        UrlExtractionRule::RegexUrl { priority, .. } => *priority,
    }
}

/// Extract a media URL from a parsed document and the text it was parsed from.
pub fn pick_url(
    document: &Json,
    text: &str,
    rules: &[UrlExtractionRule],
    bait_domains: &[String],
    bait_filenames: &[String],
) -> (r: Option<ExtractedUrl>)
    ensures
        match r {
            Some(found) => {
                &&& picked(
                    document@,
                    text@,
                    rules@,
                    texts(bait_domains@),
                    texts(bait_filenames@),
                ) == Some(found.url@)
                &&& opt_text(found.request_token) == filled_member(document@, "request"@)
                &&& opt_text(found.file_code) == filled_member(document@, "file_code"@)
            },
            None => picked(
                document@,
                text@,
                rules@,
                texts(bait_domains@),
                texts(bait_filenames@),
            ) is None,
        },
{
    if !document.is_object() {
        return None;
    }
    let ghost domains = texts(bait_domains@);
    let ghost filenames = texts(bait_filenames@);
    let mut best: Option<(usize, String)> = None;
    let mut i: usize = 0;
    while i < rules.len()
        invariant
            i <= rules@.len(),
            domains == texts(bait_domains@),
            filenames == texts(bait_filenames@),
            match best {
                Some((k, url)) => k < i && winning_rule(
                    document@,
                    text@,
                    rules@,
                    i as int,
                    domains,
                    filenames,
                ) == Some(k as int) && rule_link(
                    document@,
                    text@,
                    rules@[k as int],
                    domains,
                    filenames,
                ) == Some(url@),
                None => winning_rule(document@, text@, rules@, i as int, domains, filenames)
                    is None,
            },
        decreases rules.len() - i,
    {
        let found = apply_rule(document, text, &rules[i], bait_domains, bait_filenames);
        match found {
            Some(url) => {
                let better: bool = match &best {
                    Some((k, _)) => priority_of(&rules[i]) < priority_of(&rules[*k]),
                    None => true,
                };
                if better {
                    best = Some((i, url));
                }
            },
            None => {},
        }
        i = i + 1;
    }
    match best {
        Some((_, url)) => Some(
            ExtractedUrl {
                url,
                request_token: document.get_filled("request"),
                file_code: document.get_filled("file_code"),
            },
        ),
        None => None,
    }
}

/// Extract a media URL from deobfuscated JSON using extraction rules.
pub fn extract_url_from_deobfuscated(
    deobfuscated: &str,
    rules: &[UrlExtractionRule],
    bait_domains: &[String],
    bait_filenames: &[String],
) -> (r: Option<ExtractedUrl>)
    ensures
        match json_parse(deobfuscated@) {
            Err(_) => r is None,
            Ok(tree) => match r {
                Some(found) => {
                    &&& picked(
                        tree,
                        deobfuscated@,
                        rules@,
                        texts(bait_domains@),
                        texts(bait_filenames@),
                    ) == Some(found.url@)
                    &&& opt_text(found.request_token) == filled_member(tree, "request"@)
                    &&& opt_text(found.file_code) == filled_member(tree, "file_code"@)
                },
                None => picked(
                    tree,
                    deobfuscated@,
                    rules@,
                    texts(bait_domains@),
                    texts(bait_filenames@),
                ) is None,
            },
        },
{
    match parse_json(deobfuscated) {
        Ok(document) => pick_url(&document, deobfuscated, rules, bait_domains, bait_filenames),
        Err(_) => None,
    }
}

// ---------------------------------------------------------------------------
// Laws
// ---------------------------------------------------------------------------

/// Running two chains one after the other is running their concatenation.
pub proof fn lemma_chain_concat(first: Seq<StepModel>, second: Seq<StepModel>, input: Seq<char>)
    ensures
        chain_output(first + second, input) == match chain_output(first, input) {
            Some(middle) => chain_output(second, middle),
            None => None,
        },
    decreases first.len(),
{
    if first.len() == 0 {
        assert(first + second =~= second);
    } else {
        assert((first + second).skip(1) =~= first.skip(1) + second);
        match step_output(first[0], input) {
            Some(next) => lemma_chain_concat(first.skip(1), second, next),
            None => {},
        }
    }
}

/// A chain fails as soon as one of its steps fails on what reaches it.
pub proof fn lemma_chain_fails_with_step(
    first: Seq<StepModel>,
    step: StepModel,
    rest: Seq<StepModel>,
    input: Seq<char>,
)
    requires
        chain_output(first, input) is Some,
        step_output(step, chain_output(first, input)->0) is None,
    ensures
        chain_output(first.push(step) + rest, input) is None,
{
    lemma_chain_concat(first, seq![step] + rest, input);
    assert(first.push(step) + rest =~= first + (seq![step] + rest));
}

/// The winning rule finds a link, and no rule that is tried before it does.
pub proof fn lemma_winning_rule_first(
    tree: Tree,
    text: Seq<char>,
    rules: Seq<UrlExtractionRule>,
    n: int,
    domains: Seq<Seq<char>>,
    filenames: Seq<Seq<char>>,
)
    requires
        0 <= n <= rules.len(),
    ensures
        match winning_rule(tree, text, rules, n, domains, filenames) {
            Some(k) => {
                &&& 0 <= k < n
                &&& rule_link(tree, text, rules[k], domains, filenames) is Some
                &&& forall|j: int|
                    0 <= j < n && rule_link(tree, text, #[trigger] rules[j], domains, filenames)
                        is Some ==> rule_priority(rules[k]) < rule_priority(rules[j]) || (
                    rule_priority(rules[k]) == rule_priority(rules[j]) && k <= j)
            },
            None => forall|j: int|
                0 <= j < n ==> rule_link(tree, text, #[trigger] rules[j], domains, filenames)
                    is None,
        },
    decreases n,
{
    if n > 0 {
        lemma_winning_rule_first(tree, text, rules, n - 1, domains, filenames);
    }
}

/// The best-ranked link has the lowest rank, and is the first with it.
pub proof fn lemma_best_ranked(links: Seq<(Seq<char>, Seq<char>)>, n: int)
    requires
        1 <= n <= links.len(),
    ensures
        0 <= best_ranked(links, n) < n,
        forall|j: int|
            0 <= j < n ==> quality_rank(links[best_ranked(links, n)].0) <= quality_rank(
                (#[trigger] links[j]).0,
            ),
        forall|j: int|
            0 <= j < best_ranked(links, n) ==> quality_rank(links[best_ranked(links, n)].0)
                < quality_rank((#[trigger] links[j]).0),
    decreases n,
{
    if n > 1 {
        lemma_best_ranked(links, n - 1);
    }
}

/// The gathered links are all HLS playlists, or all none.
pub proof fn lemma_quality_links(
    fields: Seq<(Seq<char>, Tree)>,
    n: int,
    hls: bool,
    domains: Seq<Seq<char>>,
    filenames: Seq<Seq<char>>,
)
    requires
        0 <= n <= fields.len(),
    ensures
        forall|i: int|
            0 <= i < quality_links(fields, n, hls, domains, filenames).len() ==> is_hls(
                (#[trigger] quality_links(fields, n, hls, domains, filenames)[i]).1,
            ) == hls,
    decreases n,
{
    if n > 0 {
        lemma_quality_links(fields, n - 1, hls, domains, filenames);
        let before = quality_links(fields, n - 1, hls, domains, filenames);
        let all = quality_links(fields, n, hls, domains, filenames);
        assert forall|i: int| 0 <= i < all.len() implies is_hls((#[trigger] all[i]).1) == hls by {
            if i < before.len() {
                assert(all[i] == before[i]);
            }
        }
    }
}

/// A usable link of the wanted sort is gathered.
pub proof fn lemma_quality_links_hold(
    fields: Seq<(Seq<char>, Tree)>,
    n: int,
    j: int,
    url: Seq<char>,
    hls: bool,
    domains: Seq<Seq<char>>,
    filenames: Seq<Seq<char>>,
)
    requires
        0 <= j < n <= fields.len(),
        fields[j].1 == Tree::Text(url),
        url.len() > 0,
        !is_bait(url, domains, filenames),
        is_hls(url) == hls,
    ensures
        quality_links(fields, n, hls, domains, filenames).len() > 0,
    decreases n,
{
    if j < n - 1 {
        lemma_quality_links_hold(fields, n - 1, j, url, hls, domains, filenames);
    }
}

/// Where MP4 is preferred, no HLS playlist is taken from a value.
pub proof fn lemma_hls_skipped(
    value: Tree,
    domains: Seq<Seq<char>>,
    filenames: Seq<Seq<char>>,
)
    ensures
        value_link(value, true, domains, filenames) matches Some(url) ==> !is_hls(url),
{
    match value {
        Tree::Object(fields) => {
            let n = fields.len() as int;
            let mp4 = quality_links(fields, n, false, domains, filenames);
            lemma_quality_links(fields, n, false, domains, filenames);
            if mp4.len() > 0 {
                lemma_chosen_level(mp4);
            }
        },
        _ => {},
    }
}

/// Of an object's quality levels one is taken, and it is the one that rate
/// limits and preference choose among those of its kind: where MP4 is
/// preferred among the MP4 links, else among the playlists, and among the MP4
/// links where there is no playlist.
pub proof fn lemma_level_chosen(
    fields: Seq<(Seq<char>, Tree)>,
    prefer_mp4: bool,
    domains: Seq<Seq<char>>,
    filenames: Seq<Seq<char>>,
)
    ensures
        ({
            let n = fields.len() as int;
            let mp4 = quality_links(fields, n, false, domains, filenames);
            let hls = quality_links(fields, n, true, domains, filenames);
            let levels = if prefer_mp4 || hls.len() == 0 {
                mp4
            } else {
                hls
            };
            value_link(Tree::Object(fields), prefer_mp4, domains, filenames) == if levels.len()
                > 0 {
                Some(levels[chosen_level(levels)].1)
            } else {
                None
            }
        }),
{
}

/// Where MP4 is preferred and a level has a usable link that is no playlist,
/// such a link is found.
pub proof fn lemma_mp4_preferred(
    fields: Seq<(Seq<char>, Tree)>,
    j: int,
    url: Seq<char>,
    domains: Seq<Seq<char>>,
    filenames: Seq<Seq<char>>,
)
    requires
        0 <= j < fields.len(),
        fields[j].1 == Tree::Text(url),
        url.len() > 0,
        !is_bait(url, domains, filenames),
        !is_hls(url),
    ensures
        value_link(Tree::Object(fields), true, domains, filenames) is Some,
        !is_hls(value_link(Tree::Object(fields), true, domains, filenames)->0),
{
    lemma_quality_links_hold(fields, fields.len() as int, j, url, false, domains, filenames);
    lemma_hls_skipped(Tree::Object(fields), domains, filenames);
}

/// A link that got its token carries an `rq` parameter, so appending again
/// changes nothing.
pub proof fn lemma_with_rq_idempotent(url: Seq<char>, token: Seq<char>, again: Seq<char>)
    requires
        token.len() > 0,
    ensures
        has_rq(with_rq(url, token)),
        with_rq(with_rq(url, token), again) == with_rq(url, token),
{
    if !has_rq(url) {
        let mark = if url.contains('?') {
            "&rq="@
        } else {
            "?rq="@
        };
        let full = url + mark + token;
        assert(full.subrange(url.len() as int, (url.len() + mark.len()) as int) =~= mark);
        assert(crate::text::occurs_at(full, mark, url.len() as int));
    }
}

} // verus!
