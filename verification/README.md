# agi_thainlp

Thai natural-language processing with specifications checked by Verus:
Thai character classes, Thai Character Cluster (TCC) tokenization, sentence
splitting, NewMM dictionary word tokenization, RTGS romanization, Udom83 and
LK82 soundex codes, dictionary-order collation, digit conversion, Thai number
words and tonemark removal. No external language resources are used.

## Layout

- `src/` — the library, verified with Verus.
  - `characters.rs` — Thai character constants and classes.
  - `text.rs` — conversions between strings and character vectors.
  - `rewrite.rs` — a leftmost-first rewriting engine over fixed-length
    character patterns; `rules.rs` holds the rule tables written in it
    (soundex normalization, romanization vowels, collation keys, tonemarks).
  - `tcc.rs`, `tokenize.rs` — character clusters, sentences and word tokens.
  - `trie.rs`, `newmm.rs`, `dictionary.rs` — the dictionary trie, the NewMM
    segmentation into the fewest pieces, and the built-in word list. The
    built-in list is this crate's own selection of about 260 common words,
    kept as one space-separated string; `builtin_words` gives it as a list,
    and tokenizing with `None` is the same as tokenizing with that list.
  - `transliterate.rs` — RTGS romanization.
  - `soundex.rs` — Udom83 and LK82.
  - `numbers.rs` — Thai number words in both directions.
  - `util.rs` — collation, digit conversion, tonemark removal.
- `tests/` — tests on concrete values.
- `app/main.rs` — a small command-line demonstration.

Each public function states its result exactly over spec functions; the
main laws (tokens concatenate to the text, NewMM uses the fewest pieces,
collation sorts and keeps every word, number words read back to the number,
and so on) are public proof functions next to the code they speak of.
