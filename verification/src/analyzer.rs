//! Turns free text into index terms: lowercase, split on anything that is
//! not alphanumeric, drop tokens shorter than two characters and English
//! stop words, stem what is left.

use vstd::prelude::*;
use crate::text::{chars_of, runs, split_runs, to_lowercase, lowercase_of, views_of, TokenClass};

verus! {

/// What `stop_words::get` returns for a language code, word by word.
pub uninterp spec fn stop_words_of(language_code: Seq<char>) -> Seq<Seq<char>>;

/// What the English Snowball stemmer of `rust_stemmers` makes of a word.
pub uninterp spec fn english_stem_of(word: Seq<char>) -> Seq<char>;

/// The language codes whose lists `stop_words` holds with its default
/// feature set (the ISO lists).
pub open spec fn stop_word_languages() -> Set<Seq<char>> {
    set![
        "af"@, "ar"@, "bg"@, "bn"@, "br"@, "ca"@, "cs"@, "da"@, "de"@, "el"@,
        "en"@, "eo"@, "es"@, "et"@, "eu"@, "fa"@, "fi"@, "fr"@, "ga"@, "gl"@,
        "gu"@, "ha"@, "he"@, "hi"@, "hr"@, "hu"@, "hy"@, "id"@, "it"@, "ja"@,
        "ko"@, "ku"@, "la"@, "lt"@, "lv"@, "mr"@, "ms"@, "nl"@, "no"@, "pl"@,
        "pt"@, "ro"@, "ru"@, "sk"@, "sl"@, "so"@, "st"@, "sv"@, "sw"@, "th"@,
        "tl"@, "tr"@, "uk"@, "ur"@, "vi"@, "yo"@, "zh"@, "zu"@,
    ]
}

/// The language code under which `stop_words` files its English list.
pub open spec fn english_code() -> Seq<char> {
    "en"@
}

/// `stop_words::get`: the stop-word list of a language, each word copied
/// into a `String`. `get` panics on a code whose list the enabled features
/// do not provide, so the code must be one of those. The contract claims
/// only that the list is a fixed function of the code.
#[verifier::external_body]
fn stop_words_for(language_code: &str) -> (words: Vec<String>)
    requires
        stop_word_languages().contains(language_code@),
    ensures
        views_of(words@) == stop_words_of(language_code@),
{
    let words = stop_words::get(language_code);
    words.iter().map(|word| (*word).to_string()).collect()
}

/// `rust_stemmers::Stemmer::stem` with the English algorithm
/// (`Stemmer::create(Algorithm::English)`). The contract claims only that
/// the stem is a fixed function of the word.
#[verifier::external_body]
fn stem_english(word: &str) -> (stem: String)
    ensures
        stem@ == english_stem_of(word@),
{
    rust_stemmers::Stemmer::create(rust_stemmers::Algorithm::English).stem(word).into_owned()
}

/// The terms that survive: tokens of at least two characters that are not
/// stop words, each stemmed, in order.
pub open spec fn filter_and_stem(tokens: Seq<Seq<char>>, stop_words: Seq<Seq<char>>) -> Seq<Seq<char>>
    decreases tokens.len(),
{
    if tokens.len() == 0 {
        Seq::empty()
    } else {
        let prev = filter_and_stem(tokens.drop_last(), stop_words);
        let t = tokens.last();
        if t.len() < 2 || stop_words.contains(t) {
            prev
        } else {
            prev.push(english_stem_of(t))
        }
    }
}

/// The index terms of a text: the alphanumeric runs of its lowercase form,
/// without those shorter than two characters and without English stop
/// words, each stemmed.
pub open spec fn analysis(text: Seq<char>) -> Seq<Seq<char>> {
    filter_and_stem(runs(lowercase_of(text), TokenClass::Alphanumeric), stop_words_of(english_code()))
}

/// Turns text into index terms, holding the English stop-word list.
pub struct TextAnalyzer {
    stop_words: Vec<String>,
}

impl TextAnalyzer {
    #[verifier::type_invariant]
    spec fn holds_english_stop_words(self) -> bool {
        views_of(self.stop_words@) == stop_words_of(english_code())
    }

    /// The stop words the analyzer drops, in the order it holds them.
    pub closed spec fn stop_list(self) -> Seq<Seq<char>> {
        views_of(self.stop_words@)
    }

    /// An analyzer with the English stop-word list of `stop_words`.
    pub fn new() -> (analyzer: Self)
        ensures
            analyzer.stop_list() == stop_words_of(english_code()),
    {
        TextAnalyzer { stop_words: stop_words_for("en") }
    }

    fn is_stop_word(&self, token: &String) -> (r: bool)
        ensures
            r == stop_words_of(english_code()).contains(token@),
    {
        proof {
            use_type_invariant(self);
        }
        let mut j: usize = 0;
        while j < self.stop_words.len()
            invariant
                j <= self.stop_words@.len(),
                views_of(self.stop_words@) == stop_words_of(english_code()),
                forall|k: int| 0 <= k < j ==> self.stop_words@[k]@ != token@,
            decreases self.stop_words@.len() - j,
        {
            if self.stop_words[j] == *token {
                proof {
                    assert(stop_words_of(english_code())[j as int] == token@);
                }
                return true;
            }
            j = j + 1;
        }
        proof {
            if stop_words_of(english_code()).contains(token@) {
                let k = choose|k: int| 0 <= k < stop_words_of(english_code()).len()
                    && stop_words_of(english_code())[k] == token@;
                assert(self.stop_words@[k]@ == token@);
            }
        }
        false
    }

    /// The index terms of `text`, in the order they occur.
    pub fn analyze(&self, text: &str) -> (terms: Vec<String>)
        ensures
            views_of(terms@) == analysis(text@),
    {
        let lowered = to_lowercase(text);
        let chars = chars_of(lowered.as_str());
        let tokens = split_runs(chars.as_slice(), TokenClass::Alphanumeric);
        let mut terms: Vec<String> = Vec::new();
        let mut i: usize = 0;
        while i < tokens.len()
            invariant
                i <= tokens@.len(),
                views_of(tokens@) == runs(lowercase_of(text@), TokenClass::Alphanumeric),
                views_of(terms@) == filter_and_stem(views_of(tokens@).take(i as int), stop_words_of(english_code())),
            decreases tokens@.len() - i,
        {
            proof {
                assert(views_of(tokens@).take(i + 1).drop_last() =~= views_of(tokens@).take(i as int));
                assert(views_of(tokens@).take(i + 1).last() == tokens@[i as int]@);
            }
            let long_enough = tokens[i].as_str().unicode_len() >= 2;
            if long_enough && !self.is_stop_word(&tokens[i]) {
                let stem = stem_english(tokens[i].as_str());
                let ghost t0 = terms@;
                terms.push(stem);
                proof {
                    assert(views_of(terms@) =~= views_of(t0).push(stem@));
                }
            }
            i = i + 1;
        }
        proof {
            assert(views_of(tokens@).take(tokens@.len() as int) =~= views_of(tokens@));
        }
        terms
    }
}

} // verus!
