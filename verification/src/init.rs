//! The configuration of the server and the script that sets up its database.

use crate::seqs::lemma_filter_step;
use crate::text::Text;
use vstd::prelude::*;

verus! {

/// What is left of a text once the white space at both ends is taken away.
pub uninterp spec fn trimmed(text: Seq<char>) -> Seq<char>;

/// `str::trim`: the slice without leading and trailing white space. Which
/// characters count as white space is Unicode's business; the result has a name
/// here, and a text has one trimmed form.
pub assume_specification<'a>[ str::trim ](text: &'a str) -> (kept: &'a str)
    ensures
        kept@ == trimmed(text@),
;

/// `String::push`: appends one character.
pub assume_specification[ String::push ](text: &mut String, c: char)
    ensures
        final(text)@ == old(text)@.push(c),
;

/// The pieces between the separators of a text: one more than there are
/// separators, empty where two separators meet or the text begins or ends with
/// one.
pub open spec fn pieces(text: Text, separator: char) -> Seq<Text>
    decreases text.len(),
{
    if text.len() == 0 {
        seq![Seq::<char>::empty()]
    } else {
        let before = pieces(text.drop_last(), separator);
        if text.last() == separator {
            before.push(Seq::<char>::empty())
        } else {
            before.drop_last().push(before.last().push(text.last()))
        }
    }
}

/// The texts that are not empty.
pub open spec fn not_empty() -> spec_fn(Text) -> bool {
    |text: Text| text.len() > 0
}

/// The trimmed form of each text.
pub open spec fn all_trimmed(texts: Seq<Text>) -> Seq<Text> {
    Seq::new(texts.len(), |i: int| trimmed(texts[i]))
}

/// The statements of a script: its pieces between semicolons, trimmed, without
/// those that are empty.
pub open spec fn statements_of(script: Text) -> Seq<Text> {
    all_trimmed(pieces(script, ';')).filter(not_empty())
}

/// Splits a script at every semicolon.
pub fn split_script(script: &str) -> (parts: Vec<String>)
    ensures
        parts.deep_view() == pieces(script@, ';'),
{
    let mut done: Vec<String> = Vec::new();
    let mut piece = String::new();
    let ghost text = script@;
    assert(text.take(0) =~= Seq::<char>::empty());
    assert(done.deep_view().push(piece@) =~= seq![Seq::<char>::empty()]);
    for c in chars: script.chars()
        invariant
            text == script@,
            chars.seq() == text,
            done.deep_view().push(piece@) == pieces(text.take(chars.index() as int), ';'),
    {
        let ghost i = chars.index() as int;
        let ghost so_far = done.deep_view();
        let ghost open = piece@;
        proof {
            assert(text.take(i + 1).drop_last() =~= text.take(i));
            assert(text.take(i + 1).last() == c);
            assert(so_far.push(open).drop_last() =~= so_far);
            assert(so_far.push(open).last() == open);
        }
        if c == ';' {
            done.push(piece);
            piece = String::new();
            assert(done.deep_view() =~= so_far.push(open));
        } else {
            piece.push(c);
        }
    }
    assert(text.take(text.len() as int) =~= text);
    done.push(piece);
    assert(done.deep_view() =~= pieces(text, ';'));
    done
}

/// The texts among `texts` that are not empty, in order.
pub fn keep_statements(texts: Vec<String>) -> (kept: Vec<String>)
    ensures
        kept.deep_view() == texts.deep_view().filter(not_empty()),
{
    let ghost all = texts.deep_view();
    let mut kept: Vec<String> = Vec::new();
    let mut i: usize = 0;
    assert(all.take(0) =~= Seq::<Text>::empty());
    assert(kept.deep_view() =~= Seq::<Text>::empty());
    while i < texts.len()
        invariant
            i <= texts.len(),
            all == texts.deep_view(),
            kept.deep_view() == all.take(i as int).filter(not_empty()),
        decreases texts.len() - i,
    {
        let ghost so_far = kept.deep_view();
        proof {
            lemma_filter_step(all, i as int, not_empty());
        }
        if !texts[i].as_str().is_empty() {
            kept.push(texts[i].clone());
            assert(kept.deep_view() =~= so_far.push(all[i as int]));
        }
        i = i + 1;
    }
    assert(all.take(texts.len() as int) =~= all);
    kept
}

/// The statements of a script, in order: it is split at every semicolon, each
/// piece is trimmed, and the pieces that are then empty are dropped.
pub fn sql_statements(script: &str) -> (statements: Vec<String>)
    ensures
        statements.deep_view() == statements_of(script@),
{
    let parts = split_script(script);
    let mut trimmed_parts: Vec<String> = Vec::new();
    let mut i: usize = 0;
    while i < parts.len()
        invariant
            i <= parts.len(),
            trimmed_parts.len() == i,
            forall|j: int| 0 <= j < i ==> (#[trigger] trimmed_parts[j])@ == trimmed(parts[j]@),
        decreases parts.len() - i,
    {
        trimmed_parts.push(parts[i].as_str().trim().to_string());
        i = i + 1;
    }
    assert(trimmed_parts.deep_view() =~= all_trimmed(parts.deep_view()));
    keep_statements(trimmed_parts)
}

/// The whole configuration file.
#[derive(Debug, PartialEq, Eq)]
pub struct Config {
    pub database: DatabaseConfig,
    pub server: ServerConfig,
    pub options: OptionsConfig,
}

/// Where the database lives and the script that creates its relations.
#[derive(Debug, PartialEq, Eq)]
pub struct DatabaseConfig {
    pub path: String,
    pub init_sql_path: String,
}

/// Where the server listens.
#[derive(Debug, PartialEq, Eq)]
pub struct ServerConfig {
    pub port: u16,
    pub host: String,
}

/// Switches.
#[derive(Debug, PartialEq, Eq, Clone, Copy)]
pub struct OptionsConfig {
    /// Whether the database still has to be set up.
    pub init_db: bool,
}

impl Clone for DatabaseConfig {
    fn clone(&self) -> (copy: Self)
        ensures
            copy == *self,
    {
        DatabaseConfig { path: self.path.clone(), init_sql_path: self.init_sql_path.clone() }
    }
}

impl Clone for ServerConfig {
    fn clone(&self) -> (copy: Self)
        ensures
            copy == *self,
    {
        ServerConfig { port: self.port, host: self.host.clone() }
    }
}

impl Clone for Config {
    fn clone(&self) -> (copy: Self)
        ensures
            copy == *self,
    {
        Config {
            database: self.database.clone(),
            server: self.server.clone(),
            options: self.options,
        }
    }
}

impl Config {
    /// The configuration to write back once the database has been set up: the
    /// same, with the switch turned off.
    pub fn after_setup(&self) -> (next: Config)
        ensures
            next == (Config { options: OptionsConfig { init_db: false }, ..*self }),
    {
        Config {
            database: self.database.clone(),
            server: self.server.clone(),
            options: OptionsConfig { init_db: false },
        }
    }
}

} // verus!
