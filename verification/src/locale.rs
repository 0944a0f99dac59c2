//! Translations: the messages of each language, and what is said where one is
//! missing.

use serde_json::Value as Json;
use std::collections::BTreeMap;
use vstd::prelude::*;

use crate::bets::{MAX_BET, MIN_BET};
use crate::chance::pick_one;
use crate::clock::DAILY_REWARD;
use crate::text::{decimal, same, show_i64};

verus! {

/// A translated message: one text, or several to choose from (a choice that is no
/// text counts as an empty one), or something that is no message.
#[derive(Debug, PartialEq, Eq)]
pub enum Message {
    Text(String),
    Choices(Vec<Option<String>>),
    Other,
}

/// A message as a mathematical value.
pub enum MessageView {
    Text(Seq<char>),
    Choices(Seq<Option<Seq<char>>>),
    Other,
}

/// A message under its key.
#[derive(Debug, PartialEq, Eq)]
pub struct Entry {
    pub key: String,
    pub message: Message,
}

/// The messages of one language.
#[derive(Debug, PartialEq, Eq)]
pub struct Language {
    pub code: String,
    pub entries: Vec<Entry>,
}

/// The messages of every language. No language occurs twice, and no key twice
/// within a language.
#[derive(Debug, PartialEq, Eq)]
pub struct Locales {
    pub languages: Vec<Language>,
}

/// The messages of one language, each with its key.
pub type Table = Seq<(Seq<char>, MessageView)>;

/// The tables of all languages, each with its code.
pub type Tables = Seq<(Seq<char>, Seq<(Seq<char>, MessageView)>)>;

/// The views of a list of optional strings.
pub open spec fn choice_views(list: Seq<Option<String>>) -> Seq<Option<Seq<char>>> {
    list.map_values(
        |c: Option<String>|
            match c {
                Some(s) => Some(s@),
                None => None,
            },
    )
}

impl View for Message {
    type V = MessageView;

    open spec fn view(&self) -> MessageView {
        match self {
            Message::Text(s) => MessageView::Text(s@),
            Message::Choices(list) => MessageView::Choices(choice_views(list@)),
            Message::Other => MessageView::Other,
        }
    }
}

/// The entries of a language as a table.
pub open spec fn table_of(entries: Seq<Entry>) -> Table {
    entries.map_values(|e: Entry| (e.key@, e.message@))
}

/// The languages as tables.
pub open spec fn tables_of(languages: Seq<Language>) -> Tables {
    languages.map_values(|l: Language| (l.code@, table_of(l.entries@)))
}

impl View for Locales {
    type V = Tables;

    open spec fn view(&self) -> Tables {
        tables_of(self.languages@)
    }
}

/// No two rows of a table have the same key.
pub open spec fn keys_differ<V>(table: Seq<(Seq<char>, V)>) -> bool {
    forall|i: int, j: int|
        #![trigger table[i], table[j]]
        0 <= i < j < table.len() ==> table[i].0 != table[j].0
}

/// No language occurs twice, and no key twice within a language.
pub open spec fn is_catalog(tables: Tables) -> bool {
    keys_differ(tables) && forall|i: int|
        0 <= i < tables.len() ==> keys_differ((#[trigger] tables[i]).1)
}

/// `serde_json::Error`, what `serde_json` reports of a text that it cannot read.
#[verifier::external_type_specification]
#[verifier::external_body]
pub struct ExJsonError(serde_json::Error);

/// What `serde_json::from_str` reads from a text as an object of objects: for each
/// language, in the order of the codes, its messages in the order of their keys;
/// nothing where the text is not such an object.
pub uninterp spec fn parsed_translations(json: Seq<char>) -> Option<
    Seq<(Seq<char>, Seq<(Seq<char>, MessageView)>)>,
>;

/// `serde_json::from_str` of `serde_json`, into a map of maps of JSON values. The
/// result depends on the text alone; the keys of a map differ. A string value
/// becomes a text, an array its elements, of which those that are no strings have
/// no text, and any other value is no message.
#[verifier::external_body]
fn read_translations(json: &str) -> (result: Result<Vec<Language>, serde_json::Error>)
    ensures
        match parsed_translations(json@) {
            Some(tables) => result is Ok && tables_of(result->Ok_0@) == tables,
            None => result is Err,
        },
        result is Ok ==> is_catalog(tables_of(result->Ok_0@)),
{
    let maps: BTreeMap<String, BTreeMap<String, Json>> = serde_json::from_str(json)?;
    let message = |value| match value {
        Json::String(s) => Message::Text(s),
        Json::Array(a) => Message::Choices(a.iter().map(|v| v.as_str().map(str::to_owned)).collect()),
        Json::Null | Json::Bool(_) | Json::Number(_) | Json::Object(_) => Message::Other,
    };
    let entry = |(key, value)| Entry { key, message: message(value) };
    let list = |(code, map)| Language { code, entries: BTreeMap::into_iter(map).map(entry).collect() };
    Ok(maps.into_iter().map(list).collect())
}

/// Why translations cannot be read.
#[derive(Clone, Copy, Debug, PartialEq, Eq, Structural)]
pub enum LocaleError {
    Malformed,
}

impl Locales {
    /// Translations for no language at all.
    pub fn empty() -> (locales: Locales)
        ensures
            locales@ == Seq::<(Seq<char>, Table)>::empty(),
            is_catalog(locales@),
    {
        let locales = Locales { languages: Vec::new() };
        proof {
            assert(locales@ =~= Seq::<(Seq<char>, Table)>::empty());
        }
        locales
    }

    /// Reads translations from JSON.
    pub fn parse(json: &str) -> (result: Result<Locales, LocaleError>)
        ensures
            match parsed_translations(json@) {
                Some(tables) => result is Ok && result->Ok_0@ == tables,
                None => result == Err::<Locales, LocaleError>(LocaleError::Malformed),
            },
            result is Ok ==> is_catalog(result->Ok_0@),
    {
        match read_translations(json) {
            Ok(languages) => Ok(Locales { languages }),
            Err(_) => Err(LocaleError::Malformed),
        }
    }
}

/// The row of a table with a given key.
pub open spec fn find<V>(table: Seq<(Seq<char>, V)>, key: Seq<char>) -> Option<V>
    decreases table.len(),
{
    if table.len() == 0 {
        None
    } else if table[0].0 == key {
        Some(table[0].1)
    } else {
        find(table.skip(1), key)
    }
}

/// The message under a key in a language.
pub open spec fn message_for(tables: Tables, lang: Seq<char>, key: Seq<char>) -> Option<
    MessageView,
> {
    match find(tables, lang) {
        Some(table) => find(table, key),
        None => None,
    }
}

proof fn lemma_find_at<V>(table: Seq<(Seq<char>, V)>, key: Seq<char>, at: int)
    requires
        0 <= at <= table.len(),
        forall|i: int| 0 <= i < at ==> (#[trigger] table[i]).0 != key,
    ensures
        at < table.len() && table[at].0 == key ==> find(table, key) == Some(table[at].1),
        at == table.len() ==> find(table, key) is None,
    decreases at,
{
    if at > 0 {
        assert forall|i: int| 0 <= i < at - 1 implies (#[trigger] table.skip(1)[i]).0 != key by {
            assert(table.skip(1)[i] == table[i + 1]);
        }
        assert(table[0].0 != key);
        lemma_find_at(table.skip(1), key, at - 1);
        if at < table.len() {
            assert(table.skip(1)[at - 1] == table[at]);
        }
    }
}

/// Looks up a message.
fn lookup<'a>(locales: &'a Locales, lang: &str, key: &str) -> (found: Option<&'a Message>)
    ensures
        match message_for(locales@, lang@, key@) {
            Some(m) => found is Some && found->0@ == m,
            None => found is None,
        },
{
    let mut i: usize = 0;
    while i < locales.languages.len()
        invariant
            i <= locales.languages@.len(),
            forall|k: int| 0 <= k < i ==> (#[trigger] locales@[k]).0 != lang@,
        decreases locales.languages@.len() - i,
    {
        let language = &locales.languages[i];
        if same(language.code.as_str(), lang) {
            proof {
                lemma_find_at(locales@, lang@, i as int);
                assert(locales@[i as int].0 == lang@);
            }
            let ghost table = table_of(language.entries@);
            let mut j: usize = 0;
            while j < language.entries.len()
                invariant
                    j <= language.entries@.len(),
                    table == table_of(language.entries@),
                    message_for(locales@, lang@, key@) == find(table, key@),
                    forall|k: int| 0 <= k < j ==> (#[trigger] table[k]).0 != key@,
                decreases language.entries@.len() - j,
            {
                proof {
                    assert(table[j as int] == (
                        language.entries@[j as int].key@,
                        language.entries@[j as int].message@,
                    ));
                    lemma_find_at(table, key@, j as int);
                }
                if same(language.entries[j].key.as_str(), key) {
                    return Some(&language.entries[j].message);
                }
                j = j + 1;
            }
            proof {
                lemma_find_at(table, key@, j as int);
            }
            return None;
        }
        proof {
            assert(locales@[i as int].0 == language.code@);
        }
        i = i + 1;
    }
    proof {
        lemma_find_at(locales@, lang@, i as int);
    }
    None
}

/// What is said where a language has no message under a key.
pub open spec fn fallback(key: Seq<char>) -> Seq<char> {
    if key == "daily_success"@ {
        "✅ You claimed your daily reward of "@ + decimal(DAILY_REWARD as int) + " tokens!"@
    } else if key == "daily_wait"@ {
        "⏳ You must wait {hours}h {mins}m before claiming your next daily bonus."@
    } else if key == "cooldown_active"@ {
        "⏳ Please slow down! Wait a few seconds between games."@
    } else if key == "bet_out_of_bounds"@ {
        "⚠️ Bet must be between "@ + decimal(MIN_BET as int) + " and "@ + decimal(MAX_BET as int)
            + " tokens."@
    } else if key == "achievement_unlocked"@ {
        "🌟 <b>ACHIEVEMENT UNLOCKED: New Personal Best!</b> 🌟\nCongratulations on your biggest win yet!"@
    } else if key == "top_title"@ {
        "🏆 <b>Top 10 Richest Players</b> 🏆"@
    } else if key == "wrong_user"@ {
        "🚫 This isn't your bet!"@
    } else if key == "flip_prompt"@ {
        "🪙 Coin flip for {bet} 🥮 — choose your side!"@
    } else if key == "dice_prompt"@ {
        "🎲 Dice roll for {bet} 🥮 — pick a number!"@
    } else {
        "<Missing: "@ + key + ">"@
    }
}

/// The text that stands in for a missing message.
pub fn default_text(key: &str) -> (text: String)
    ensures
        text@ == fallback(key@),
{
    if same(key, "daily_success") {
        let mut out = "✅ You claimed your daily reward of ".to_owned();
        out.append(show_i64(DAILY_REWARD as i64).as_str());
        out.append(" tokens!");
        out
    } else if same(key, "daily_wait") {
        "⏳ You must wait {hours}h {mins}m before claiming your next daily bonus.".to_owned()
    } else if same(key, "cooldown_active") {
        "⏳ Please slow down! Wait a few seconds between games.".to_owned()
    } else if same(key, "bet_out_of_bounds") {
        let mut out = "⚠️ Bet must be between ".to_owned();
        out.append(show_i64(MIN_BET as i64).as_str());
        out.append(" and ");
        out.append(show_i64(MAX_BET as i64).as_str());
        out.append(" tokens.");
        out
    } else if same(key, "achievement_unlocked") {
        "🌟 <b>ACHIEVEMENT UNLOCKED: New Personal Best!</b> 🌟\nCongratulations on your biggest win yet!".to_owned()
    } else if same(key, "top_title") {
        "🏆 <b>Top 10 Richest Players</b> 🏆".to_owned()
    } else if same(key, "wrong_user") {
        "🚫 This isn't your bet!".to_owned()
    } else if same(key, "flip_prompt") {
        "🪙 Coin flip for {bet} 🥮 — choose your side!".to_owned()
    } else if same(key, "dice_prompt") {
        "🎲 Dice roll for {bet} 🥮 — pick a number!".to_owned()
    } else {
        let mut out = "<Missing: ".to_owned();
        out.append(key);
        out.append(">");
        out
    }
}

/// The text of a choice.
pub open spec fn choice_text(c: Option<Seq<char>>) -> Seq<char> {
    match c {
        Some(s) => s,
        None => Seq::empty(),
    }
}

/// The texts that can be said for a message: any one of the choices where there are
/// some, the text where there is one, and the fallback otherwise.
pub open spec fn can_say(message: Option<MessageView>, key: Seq<char>, text: Seq<char>) -> bool {
    match message {
        Some(MessageView::Choices(list)) => if list.len() > 0 {
            exists|i: int| 0 <= i < list.len() && text == choice_text(#[trigger] list[i])
        } else {
            text == fallback(key)
        },
        Some(MessageView::Text(s)) => text == s,
        _ => text == fallback(key),
    }
}

/// The texts that can be said for a key in a language.
pub open spec fn is_message(
    tables: Tables,
    lang: Seq<char>,
    key: Seq<char>,
    text: Seq<char>,
) -> bool {
    can_say(message_for(tables, lang, key), key, text)
}

/// The text of a choice that was made.
pub fn say_choice(choice: &Option<String>) -> (text: String)
    ensures
        text@ == choice_text(
            match *choice {
                Some(s) => Some(s@),
                None => None,
            },
        ),
{
    match choice {
        Some(s) => s.clone(),
        None => String::new(),
    }
}

/// The message under a key in a language. Where there are several, chance chooses
/// one of them.
pub fn t(locales: &Locales, lang: &str, key: &str) -> (text: String)
    ensures
        is_message(locales@, lang@, key@, text@),
{
    match lookup(locales, lang, key) {
        Some(Message::Choices(list)) => {
            match pick_one(list) {
                Some(choice) => {
                    let text = say_choice(choice);
                    proof {
                        let views = choice_views(list@);
                        let i = choose|i: int| 0 <= i < list@.len() && list@[i] == *choice;
                        assert(text@ == choice_text(views[i]));
                    }
                    text
                },
                None => default_text(key),
            }
        },
        Some(Message::Text(s)) => s.clone(),
        _ => default_text(key),
    }
}

/// What a catalogue holds is what is said: the message in a row of a language's table
/// is found under the row's key and the language's code, as one of its texts where
/// there are several.
#[verifier::rlimit(40)]
pub proof fn the_catalogue_is_said(tables: Tables, i: int, j: int, text: Seq<char>)
    requires
        is_catalog(tables),
        0 <= i < tables.len(),
        0 <= j < tables[i].1.len(),
    ensures
        ({
            let lang = tables[i].0;
            let (key, message) = tables[i].1[j];
            &&& message_for(tables, lang, key) == Some(message)
            &&& message matches MessageView::Text(s) ==> (is_message(tables, lang, key, text)
                <==> text == s)
            &&& message matches MessageView::Choices(list) ==> list.len() > 0 ==> (is_message(
                tables,
                lang,
                key,
                text,
            ) <==> (exists|k: int|
                0 <= k < list.len() && match #[trigger] list[k] {
                    Some(s) => text == s,
                    None => text.len() == 0,
                }))
        }),
{
    let lang = tables[i].0;
    let table = tables[i].1;
    let (key, message) = table[j];
    assert forall|k: int| 0 <= k < i implies (#[trigger] tables[k]).0 != lang by {
        assert(tables[i].0 == lang);
    }
    lemma_find_at(tables, lang, i);
    assert(keys_differ(tables[i].1));
    assert forall|k: int| 0 <= k < j implies (#[trigger] table[k]).0 != key by {
        assert(table[j].0 == key);
    }
    lemma_find_at(table, key, j);
    if let MessageView::Choices(list) = message {
        if list.len() > 0 {
            if is_message(tables, lang, key, text) {
                let k = choose|k: int| 0 <= k < list.len() && text == choice_text(
                    #[trigger] list[k],
                );
                assert(match list[k] {
                    Some(s) => text == s,
                    None => text.len() == 0,
                });
            }
            if exists|k: int|
                0 <= k < list.len() && match #[trigger] list[k] {
                    Some(s) => text == s,
                    None => text.len() == 0,
                } {
                let k = choose|k: int|
                    0 <= k < list.len() && match #[trigger] list[k] {
                        Some(s) => text == s,
                        None => text.len() == 0,
                    };
                if list[k] is None {
                    assert(text =~= Seq::empty());
                }
                assert(text == choice_text(list[k]));
            }
        }
    }
}

/// Where a catalogue has no such language, or the language no such key, the default is
/// said, and only that.
pub proof fn what_is_missing_has_a_default(
    tables: Tables,
    lang: Seq<char>,
    key: Seq<char>,
    text: Seq<char>,
)
    requires
        forall|i: int, j: int|
            0 <= i < tables.len() && 0 <= j < tables[i].1.len() ==> tables[i].0 != lang
                || #[trigger] tables[i].1[j].0 != key,
    ensures
        is_message(tables, lang, key, text) <==> text == fallback(key),
{
    lemma_found_is_there(tables, lang);
    if let Some(table) = find(tables, lang) {
        let i = choose|i: int| 0 <= i < tables.len() && #[trigger] tables[i] == (lang, table);
        assert forall|j: int| 0 <= j < table.len() implies (#[trigger] table[j]).0 != key by {
            assert(tables[i].1[j].0 != key);
        }
        lemma_find_at(table, key, table.len() as int);
    }
}

proof fn lemma_found_is_there<V>(table: Seq<(Seq<char>, V)>, key: Seq<char>)
    ensures
        find(table, key) matches Some(v) ==> exists|i: int|
            0 <= i < table.len() && #[trigger] table[i] == (key, v),
    decreases table.len(),
{
    if table.len() > 0 {
        lemma_found_is_there(table.skip(1), key);
        if let Some(v) = find(table, key) {
            if table[0].0 == key {
                assert(table[0] == (key, v));
            } else {
                let i = choose|i: int|
                    0 <= i < table.skip(1).len() && #[trigger] table.skip(1)[i] == (key, v);
                assert(table[i + 1] == (key, v));
            }
        }
    }
}

/// A missing message is named, unless it is one of those with a text of their own.
pub proof fn missing_messages_are_named(key: Seq<char>)
    requires
        key != "daily_success"@,
        key != "daily_wait"@,
        key != "cooldown_active"@,
        key != "bet_out_of_bounds"@,
        key != "achievement_unlocked"@,
        key != "top_title"@,
        key != "wrong_user"@,
        key != "flip_prompt"@,
        key != "dice_prompt"@,
    ensures
        ({
            let text = fallback(key);
            let n = text.len() as int;
            &&& n == key.len() + 11
            &&& text.take(10) == "<Missing: "@
            &&& text.subrange(10, n - 1) == key
            &&& text.last() == '>'
        }),
{
    reveal_strlit("<Missing: ");
    reveal_strlit(">");
    let text = fallback(key);
    let n = text.len() as int;
    assert(text.take(10) =~= "<Missing: "@);
    assert(text.subrange(10, n - 1) =~= key);
}

} // verus!
