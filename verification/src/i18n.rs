//! Translations of the UI texts, looked up by key. Russian is built in.
use vstd::prelude::*;

verus! {

/// The Russian dictionary, as a JSON object from keys to texts.
pub const RU_JSON: &'static str = "{\"waiting_card\": \"Ожидание карты...\", \"card_detected\": \"Карта обнаружена\", \"read_text\": \"Прочитано\", \"error\": \"Ошибка\", \"show\": \"Показать\", \"exit\": \"Выход\", \"settings\": \"Настройки\", \"logs\": \"Журнал\", \"enable_disable\": \"Вкл/Выкл\", \"reader\": \"Читатель\", \"refresh\": \"Обновить\", \"set_default\": \"Установить по умолчанию\", \"cooldown_ms\": \"Задержка повтора (мс)\", \"typing_delay_ms\": \"Задержка ввода (мс)\", \"append_enter\": \"Добавить Enter\", \"auto_start\": \"Автозапуск\", \"disable_polling\": \"Выключить опрос\", \"enable_polling\": \"Включить опрос\", \"status_running\": \"Опрос включён\", \"status_stopped\": \"Опрос выключен\"}";

/// No two entries have the same key.
pub open spec fn keys_distinct(s: Seq<(Seq<char>, Seq<char>)>) -> bool {
    forall|i: int, j: int| 0 <= i < j < s.len() ==> s[i].0 != s[j].0
}

/// The map that a list of (key, text) entries stands for.
pub open spec fn entries_map(s: Seq<(Seq<char>, Seq<char>)>) -> Map<Seq<char>, Seq<char>>
    decreases s.len(),
{
    if s.len() == 0 {
        Map::empty()
    } else {
        entries_map(s.drop_last()).insert(s.last().0, s.last().1)
    }
}

/// The entries of a list of string pairs, as plain values.
pub open spec fn pair_views(v: Seq<(String, String)>) -> Seq<(Seq<char>, Seq<char>)> {
    v.map_values(|p: (String, String)| (p.0@, p.1@))
}

/// The map from keys to texts that `serde_json::from_str` reads, as a
/// `HashMap<String, String>`, from some JSON text; `None` when it reports an error.
pub uninterp spec fn json_string_map(json: Seq<char>) -> Option<Map<Seq<char>, Seq<char>>>;

/// `serde_json::from_str` into a `HashMap<String, String>`, its entries listed.
/// Claims that the entries make up `json_string_map` of the text, and, as a hash
/// map holds each key once, that no key is listed twice.
#[verifier::external_body]
fn parse_string_map(json: &str) -> (r: Option<Vec<(String, String)>>)
    ensures
        match r {
            Some(v) => json_string_map(json@) == Some(entries_map(pair_views(v@))) && keys_distinct(
                pair_views(v@),
            ),
            None => json_string_map(json@) is None,
        },
{
    serde_json::from_str::<std::collections::HashMap<String, String>>(json).ok().map(
        |m| m.into_iter().collect(),
    )
}

/// A list with distinct keys maps each of its keys to that key's text, and
/// nothing else.
proof fn lemma_entries_map(s: Seq<(Seq<char>, Seq<char>)>)
    requires
        keys_distinct(s),
    ensures
        forall|i: int| 0 <= i < s.len() ==> #[trigger] entries_map(s).contains_key(s[i].0)
            && entries_map(s)[s[i].0] == s[i].1,
        forall|k: Seq<char>| #[trigger] entries_map(s).contains_key(k) ==> exists|i: int|
            0 <= i < s.len() && s[i].0 == k,
    decreases s.len(),
{
    if s.len() > 0 {
        let t = s.drop_last();
        assert(keys_distinct(t));
        lemma_entries_map(t);
        assert forall|i: int| 0 <= i < s.len() implies #[trigger] entries_map(s).contains_key(s[i].0)
            && entries_map(s)[s[i].0] == s[i].1 by {
            if i < s.len() - 1 {
                assert(t[i] == s[i]);
                assert(entries_map(t).contains_key(t[i].0));
                assert(s[i].0 != s[s.len() - 1].0);
            }
        }
        assert forall|k: Seq<char>| #[trigger] entries_map(s).contains_key(k) implies exists|i: int|
            0 <= i < s.len() && s[i].0 == k by {
            if k != s.last().0 {
                assert(entries_map(t).contains_key(k));
                let i = choose|i: int| 0 <= i < t.len() && t[i].0 == k;
                assert(s[i] == t[i]);
            } else {
                assert(s[s.len() - 1].0 == k);
            }
        }
    }
}

/// Why a dictionary could not be loaded.
#[derive(Debug, Clone, Copy, PartialEq, Eq)]
pub enum I18nError {
    /// The dictionary is not a JSON object of strings.
    InvalidJson,
}

/// Simple JSON-based translations. Russian is built in as the default.
pub struct I18n {
    entries: Vec<(String, String)>,
}

impl View for I18n {
    type V = Map<Seq<char>, Seq<char>>;

    closed spec fn view(&self) -> Map<Seq<char>, Seq<char>> {
        entries_map(pair_views(self.entries@))
    }
}

impl I18n {
    #[verifier::type_invariant]
    spec fn distinct_keys(&self) -> bool {
        keys_distinct(pair_views(self.entries@))
    }

    /// The dictionary for a language; every language gets the Russian one.
    pub fn new(lang: &str) -> (r: Result<Self, I18nError>)
        ensures
            match json_string_map(RU_JSON@) {
                Some(m) => r matches Ok(i) && i@ == m,
                None => r == Err::<Self, I18nError>(I18nError::InvalidJson),
            },
    {
        match parse_string_map(RU_JSON) {
            Some(entries) => Ok(I18n { entries }),
            None => Err(I18nError::InvalidJson),
        }
    }

    /// Translates a key. Falls back to the key itself when it is missing.
    pub fn t(&self, key: &str) -> (text: String)
        ensures
            text@ == if self@.contains_key(key@) {
                self@[key@]
            } else {
                key@
            },
    {
        proof {
            use_type_invariant(self);
            lemma_entries_map(pair_views(self.entries@));
        }
        let wanted = String::from_str(key);
        let mut i: usize = 0;
        while i < self.entries.len()
            invariant
                i <= self.entries@.len(),
                wanted@ == key@,
                forall|j: int| 0 <= j < i ==> #[trigger] self.entries@[j].0@ != key@,
            decreases self.entries@.len() - i,
        {
            if self.entries[i].0 == wanted {
                proof {
                    use_type_invariant(self);
                    lemma_entries_map(pair_views(self.entries@));
                    let ghost pv = pair_views(self.entries@);
                    assert(pv[i as int].0 == key@);
                    assert(entries_map(pv).contains_key(pv[i as int].0));
                    assert(pv[i as int].1 == self.entries@[i as int].1@);
                }
                return self.entries[i].1.clone();
            }
            i = i + 1;
        }
        proof {
            if self@.contains_key(key@) {
                let j = choose|j: int|
                    0 <= j < pair_views(self.entries@).len() && pair_views(self.entries@)[j].0 == key@;
                assert(self.entries@[j].0@ == key@);
            }
        }
        wanted
    }
}

} // verus!
