use vstd::prelude::*;
use vstd::hash_map::StringHashMap;

use crate::text::{chars_of, same_text, string_of_chars};

verus! {

/// The translation table that `serde_json` reads from `text` when it parses it as a JSON
/// object of string values, or `None` when `text` is no such object.
pub uninterp spec fn json_string_table(text: Seq<char>) -> Option<Map<Seq<char>, Seq<char>>>;

/// Whether no two pairs share a key.
pub open spec fn unique_keys(pairs: Seq<(String, String)>) -> bool {
    forall|i: int, j: int|
        0 <= i < pairs.len() && 0 <= j < pairs.len() && i != j ==> (#[trigger] pairs[i]).0@
            != (#[trigger] pairs[j]).0@
}

/// The map that inserting the pairs in order builds: a later pair wins over an earlier one.
pub open spec fn pairs_map(pairs: Seq<(String, String)>) -> Map<Seq<char>, Seq<char>>
    decreases pairs.len(),
{
    if pairs.len() == 0 {
        Map::empty()
    } else {
        pairs_map(pairs.drop_last()).insert(pairs.last().0@, pairs.last().1@)
    }
}

/// Parses `text` with `serde_json::from_str` as a map from strings to strings. The contract
/// says that the result is `Some` exactly when the parse succeeds, that no key occurs twice
/// (the parse builds a `HashMap`), and that the pairs make up the parsed table; the order of
/// the pairs, which is that of a walk over a `HashMap`, is left unsaid.
#[verifier::external_body]
fn parse_string_table(text: &str) -> (r: Option<Vec<(String, String)>>)
    ensures
        r is Some <==> json_string_table(text@) is Some,
        r matches Some(pairs) ==> unique_keys(pairs@) && pairs_map(pairs@)
            == json_string_table(text@)->0,
{
    match serde_json::from_str::<std::collections::HashMap<String, String>>(text) {
        Ok(m) => Some(m.into_iter().collect()),
        Err(_) => None,
    }
}

/// The table, with its values taken as character sequences.
pub open spec fn table_view(t: StringHashMap<String>) -> Map<Seq<char>, Seq<char>> {
    t@.map_values(|s: String| s@)
}

/// The table that `text` parses to, or the empty table when it does not parse.
pub open spec fn table_or_empty(text: Seq<char>) -> Map<Seq<char>, Seq<char>> {
    match json_string_table(text) {
        Some(m) => m,
        None => Map::empty(),
    }
}

/// A table holding the pairs.
fn table_from_pairs(pairs: &Vec<(String, String)>) -> (t: StringHashMap<String>)
    ensures
        table_view(t) == pairs_map(pairs@),
{
    let mut t: StringHashMap<String> = StringHashMap::new();
    let mut i: usize = 0;
    assert(pairs@.take(0) =~= Seq::<(String, String)>::empty());
    assert(table_view(t) =~= pairs_map(pairs@.take(0)));
    while i < pairs.len()
        invariant
            i <= pairs@.len(),
            table_view(t) == pairs_map(pairs@.take(i as int)),
        decreases pairs@.len() - i,
    {
        let k = pairs[i].0.clone();
        let v = pairs[i].1.clone();
        let ghost before = t;
        t.insert(k, v);
        assert(pairs@.take(i + 1).drop_last() =~= pairs@.take(i as int));
        assert(table_view(t) =~= table_view(before).insert(k@, v@));
        i = i + 1;
    }
    assert(pairs@.take(pairs@.len() as int) =~= pairs@);
    t
}

/// The table that `text` parses to, or an empty one.
fn parse_or_empty(text: &str) -> (t: StringHashMap<String>)
    ensures
        table_view(t) == table_or_empty(text@),
{
    match parse_string_table(text) {
        Some(pairs) => table_from_pairs(&pairs),
        None => {
            let t = StringHashMap::new();
            assert(table_view(t) =~= Map::empty());
            t
        },
    }
}

/// The built-in Chinese table, as JSON.
pub const DEFAULT_ZH: &'static str = r#"{
    "window_title": "Lindows 控制面板",
    "main_title": "Lindows 控制面板",
    "button_system": "系统设置",
    "button_network": "网络设置",
    "button_apps": "程序和功能",
    "button_users": "用户账户",
    "button_main": "控制面板 (主界面)",
    "button_settings": "设置",
    "settings_title": "设置",
    "settings_theme": "主题",
    "settings_theme_light": "亮色",
    "settings_theme_dark": "暗色",
    "settings_scale": "界面缩放",
    "settings_font_size": "字体大小",
    "settings_window_size": "窗口大小",
    "settings_width": "宽",
    "settings_height": "高",
    "settings_restart_hint": "（更改窗口大小需要重启程序生效）",
    "settings_show_icons": "显示图标",
    "settings_cmd_template": "系统设置命令模板",
    "settings_cmd_hint": "提示：使用 {panel} 作为子面板占位符（留空表示主界面）",
    "settings_cmd_placeholder": "输入命令模板",
    "settings_preset_gnome": "GNOME",
    "settings_preset_kde": "KDE",
    "settings_preset_xfce": "XFCE",
    "settings_custom_buttons": "自定义按钮管理",
    "settings_add_label": "标签",
    "settings_add_command": "命令",
    "settings_add_button": "添加",
    "settings_no_custom": "暂无自定义按钮",
    "settings_delete": "删除",
    "settings_close": "关闭设置",
    "settings_language": "语言"
}"#;

/// The built-in English table, as JSON.
pub const DEFAULT_EN: &'static str = r#"{
    "window_title": "Lindows Control Panel",
    "main_title": "Lindows Control Panel",
    "button_system": "System Settings",
    "button_network": "Network Settings",
    "button_apps": "Apps & Features",
    "button_users": "User Accounts",
    "button_main": "Control Panel (Main)",
    "button_settings": "Settings",
    "settings_title": "Settings",
    "settings_theme": "Theme",
    "settings_theme_light": "Light",
    "settings_theme_dark": "Dark",
    "settings_scale": "UI Scale",
    "settings_font_size": "Font Size",
    "settings_window_size": "Window Size",
    "settings_width": "Width",
    "settings_height": "Height",
    "settings_restart_hint": "(Changing window size requires restart)",
    "settings_show_icons": "Show Icons",
    "settings_cmd_template": "System Settings Command Template",
    "settings_cmd_hint": "Hint: use {panel} as panel placeholder (leave empty for main)",
    "settings_cmd_placeholder": "Enter command template",
    "settings_preset_gnome": "GNOME",
    "settings_preset_kde": "KDE",
    "settings_preset_xfce": "XFCE",
    "settings_custom_buttons": "Custom Buttons",
    "settings_add_label": "Label",
    "settings_add_command": "Command",
    "settings_add_button": "Add",
    "settings_no_custom": "No custom buttons",
    "settings_delete": "Delete",
    "settings_close": "Close Settings",
    "settings_language": "Language"
}"#;


/// A language file after its text was read: its language code, and the pairs of its table,
/// or `None` when its text is not a JSON object of strings.
pub type ParsedFile = (String, Option<Vec<(String, String)>>);

/// The language codes of the files whose text parsed, in the order of the files.
pub open spec fn parsed_langs(files: Seq<ParsedFile>) -> Seq<Seq<char>>
    decreases files.len(),
{
    if files.len() == 0 {
        Seq::empty()
    } else {
        let prev = parsed_langs(files.drop_last());
        if files.last().1 is Some {
            prev.push(files.last().0@)
        } else {
            prev
        }
    }
}

/// The tables of the files whose text parsed, by language code; of two files with one
/// code, the later one wins.
pub open spec fn parsed_tables(files: Seq<ParsedFile>) -> Map<Seq<char>, Map<Seq<char>, Seq<char>>>
    decreases files.len(),
{
    if files.len() == 0 {
        Map::empty()
    } else {
        let prev = parsed_tables(files.drop_last());
        match files.last().1 {
            Some(pairs) => prev.insert(files.last().0@, pairs_map(pairs@)),
            None => prev,
        }
    }
}

/// The language codes of the files whose text parses, in the order of the files.
pub open spec fn loaded_langs(files: Seq<(String, String)>) -> Seq<Seq<char>>
    decreases files.len(),
{
    if files.len() == 0 {
        Seq::empty()
    } else {
        let prev = loaded_langs(files.drop_last());
        if json_string_table(files.last().1@) is Some {
            prev.push(files.last().0@)
        } else {
            prev
        }
    }
}

/// The tables of the files whose text parses, by language code; of two files with one
/// code, the later one wins.
pub open spec fn loaded_tables(files: Seq<(String, String)>) -> Map<
    Seq<char>,
    Map<Seq<char>, Seq<char>>,
>
    decreases files.len(),
{
    if files.len() == 0 {
        Map::empty()
    } else {
        let prev = loaded_tables(files.drop_last());
        match json_string_table(files.last().1@) {
            Some(m) => prev.insert(files.last().0@, m),
            None => prev,
        }
    }
}

/// The languages offered: those loaded, or `zh` and `en` when none loaded.
pub open spec fn with_fallback_langs(langs: Seq<Seq<char>>) -> Seq<Seq<char>> {
    if langs.len() == 0 {
        seq!["zh"@, "en"@]
    } else {
        langs
    }
}

/// The tables in use: those loaded, or the built-in `zh` and `en` tables when none loaded.
pub open spec fn with_fallback_tables(
    langs: Seq<Seq<char>>,
    tables: Map<Seq<char>, Map<Seq<char>, Seq<char>>>,
) -> Map<Seq<char>, Map<Seq<char>, Seq<char>>> {
    if langs.len() == 0 {
        Map::empty().insert("zh"@, table_or_empty(DEFAULT_ZH@)).insert(
            "en"@,
            table_or_empty(DEFAULT_EN@),
        )
    } else {
        tables
    }
}

/// The languages offered at start-up for the files read.
pub open spec fn startup_langs(files: Seq<(String, String)>) -> Seq<Seq<char>> {
    with_fallback_langs(loaded_langs(files))
}

/// The tables at start-up for the files read.
pub open spec fn startup_tables(files: Seq<(String, String)>) -> Map<
    Seq<char>,
    Map<Seq<char>, Seq<char>>,
> {
    with_fallback_tables(loaded_langs(files), loaded_tables(files))
}

/// Whether no two files share a language code.
pub open spec fn distinct_codes<T>(files: Seq<(String, T)>) -> bool {
    forall|i: int, j: int|
        0 <= i < j < files.len() ==> (#[trigger] files[i]).0@ != (#[trigger] files[j]).0@
}

/// The language chosen at start-up: `zh` when it is offered, else the first one offered.
pub open spec fn default_lang(langs: Seq<Seq<char>>) -> Seq<char> {
    if langs.contains("zh"@) {
        "zh"@
    } else if langs.len() > 0 {
        langs[0]
    } else {
        "zh"@
    }
}

/// The text shown for `key` in language `lang`: its translation when the table of `lang`
/// holds one, else the key itself.
pub open spec fn translate(
    tables: Map<Seq<char>, Map<Seq<char>, Seq<char>>>,
    lang: Seq<char>,
    key: Seq<char>,
) -> Seq<char> {
    if tables.contains_key(lang) && tables[lang].contains_key(key) {
        tables[lang][key]
    } else {
        key
    }
}

proof fn lemma_parsed_langs(files: Seq<ParsedFile>)
    ensures
        forall|l: Seq<char>|
            parsed_tables(files).contains_key(l) <==> #[trigger] parsed_langs(files).contains(l),
        forall|l: Seq<char>| #[trigger]
            parsed_langs(files).contains(l) ==> exists|j: int|
                0 <= j < files.len() && (#[trigger] files[j]).0@ == l,
        distinct_codes(files) ==> parsed_langs(files).no_duplicates(),
    decreases files.len(),
{
    if files.len() > 0 {
        let init = files.drop_last();
        lemma_parsed_langs(init);
        let prev = parsed_langs(init);
        let cur = parsed_langs(files);
        assert forall|l: Seq<char>| #[trigger] prev.contains(l) implies exists|j: int|
            0 <= j < files.len() && (#[trigger] files[j]).0@ == l by {
            let j = choose|j: int| 0 <= j < init.len() && (#[trigger] init[j]).0@ == l;
            assert(files[j] == init[j]);
        }
        if files.last().1 is Some {
            let code = files.last().0@;
            assert forall|l: Seq<char>| #[trigger]
                cur.contains(l) <==> prev.contains(l) || l == code by {
                if cur.contains(l) {
                    let k = choose|k: int| 0 <= k < cur.len() && cur[k] == l;
                    if k < prev.len() {
                        assert(prev[k] == l);
                    }
                }
                if prev.contains(l) {
                    let k = choose|k: int| 0 <= k < prev.len() && prev[k] == l;
                    assert(cur[k] == l);
                }
                if l == code {
                    assert(cur[prev.len() as int] == l);
                }
            }
            assert forall|l: Seq<char>| #[trigger] cur.contains(l) implies exists|j: int|
                0 <= j < files.len() && (#[trigger] files[j]).0@ == l by {
                if !prev.contains(l) {
                    assert(files[files.len() - 1].0@ == l);
                }
            }
            if distinct_codes(files) {
                assert(distinct_codes(init)) by {
                    assert forall|i: int, j: int| 0 <= i < j < init.len() implies (
                    #[trigger] init[i]).0@ != (#[trigger] init[j]).0@ by {
                        assert(init[i] == files[i] && init[j] == files[j]);
                    }
                }
                if prev.contains(code) {
                    let j = choose|j: int| 0 <= j < init.len() && (#[trigger] init[j]).0@ == code;
                    assert(files[j] == init[j]);
                    assert(files[j].0@ != files[files.len() - 1].0@);
                }
                assert forall|i: int, j: int|
                    0 <= i < cur.len() && 0 <= j < cur.len() && i != j implies cur[i] != cur[j] by {
                    if i < prev.len() && j < prev.len() {
                        assert(cur[i] == prev[i] && cur[j] == prev[j]);
                    } else if i < prev.len() {
                        assert(cur[i] == prev[i]);
                        assert(prev.contains(prev[i]));
                    } else if j < prev.len() {
                        assert(cur[j] == prev[j]);
                        assert(prev.contains(prev[j]));
                    }
                }
            }
        } else {
            assert(distinct_codes(files) ==> distinct_codes(init)) by {
                if distinct_codes(files) {
                    assert forall|i: int, j: int| 0 <= i < j < init.len() implies (
                    #[trigger] init[i]).0@ != (#[trigger] init[j]).0@ by {
                        assert(init[i] == files[i] && init[j] == files[j]);
                    }
                }
            }
        }
    }
}

/// The parse results belong to the files: same codes, and each parse is that of the text.
pub open spec fn parses_of(files: Seq<(String, String)>, parsed: Seq<ParsedFile>) -> bool {
    &&& files.len() == parsed.len()
    &&& forall|j: int|
        0 <= j < files.len() ==> {
            &&& (#[trigger] parsed[j]).0@ == files[j].0@
            &&& (parsed[j].1 is Some <==> json_string_table(files[j].1@) is Some)
            &&& parsed[j].1 matches Some(pairs) ==> pairs_map(pairs@) == json_string_table(
                files[j].1@,
            )->0
        }
}

proof fn lemma_parses_agree(files: Seq<(String, String)>, parsed: Seq<ParsedFile>)
    requires
        parses_of(files, parsed),
    ensures
        parsed_langs(parsed) == loaded_langs(files),
        parsed_tables(parsed) == loaded_tables(files),
        distinct_codes(files) ==> distinct_codes(parsed),
    decreases files.len(),
{
    if files.len() > 0 {
        let fi = files.drop_last();
        let pi = parsed.drop_last();
        assert forall|j: int| 0 <= j < fi.len() implies {
            &&& (#[trigger] pi[j]).0@ == fi[j].0@
            &&& (pi[j].1 is Some <==> json_string_table(fi[j].1@) is Some)
            &&& pi[j].1 matches Some(pairs) ==> pairs_map(pairs@) == json_string_table(
                fi[j].1@,
            )->0
        } by {
            assert(pi[j] == parsed[j] && fi[j] == files[j]);
        }
        lemma_parses_agree(fi, pi);
        assert(parsed[parsed.len() - 1] == parsed.last());
    }
    if distinct_codes(files) {
        assert forall|i: int, j: int| 0 <= i < j < parsed.len() implies (
        #[trigger] parsed[i]).0@ != (#[trigger] parsed[j]).0@ by {
            assert(files[i].0@ != files[j].0@);
        }
    }
}

/// The translation tables of the control panel and the language in use.
pub struct Translations {
    pub current_lang: String,
    pub maps: StringHashMap<StringHashMap<String>>,
    pub available_langs: Vec<String>,
}

/// Whether `v` holds the string `s`.
fn holds_text(v: &Vec<String>, s: &str) -> (r: bool)
    ensures
        r == v@.map_values(|x: String| x@).contains(s@),
{
    let ghost vs = v@.map_values(|x: String| x@);
    let mut i: usize = 0;
    while i < v.len()
        invariant
            i <= v@.len(),
            vs == v@.map_values(|x: String| x@),
            forall|j: int| 0 <= j < i ==> vs[j] != s@,
        decreases v@.len() - i,
    {
        if same_text(v[i].as_str(), s) {
            assert(vs[i as int] == s@);
            return true;
        }
        i = i + 1;
    }
    false
}

impl Translations {
    /// The tables by language code, with strings taken as character sequences.
    pub open spec fn tables(&self) -> Map<Seq<char>, Map<Seq<char>, Seq<char>>> {
        self.maps@.map_values(|t: StringHashMap<String>| table_view(t))
    }

    /// The language codes offered, in order.
    pub open spec fn langs(&self) -> Seq<Seq<char>> {
        self.available_langs@.map_values(|s: String| s@)
    }

    /// The language codes offered are those that have a table, and the language in use has one.
    pub open spec fn wf(&self) -> bool {
        &&& forall|l: Seq<char>| #[trigger]
            self.tables().contains_key(l) <==> self.langs().contains(l)
        &&& self.tables().contains_key(self.current_lang@)
    }

    /// The translations built from language files whose texts were parsed: a file whose text
    /// did not parse is passed over; when no file is left, the built-in `zh` and `en` tables
    /// are used. The language in use is `zh` when it is offered, else the first one offered.
    pub fn from_parsed(files: Vec<ParsedFile>) -> (t: Self)
        ensures
            t.tables() == with_fallback_tables(parsed_langs(files@), parsed_tables(files@)),
            t.langs() == with_fallback_langs(parsed_langs(files@)),
            t.current_lang@ == default_lang(with_fallback_langs(parsed_langs(files@))),
            t.wf(),
            distinct_codes(files@) ==> t.langs().no_duplicates(),
    {
        let mut maps: StringHashMap<StringHashMap<String>> = StringHashMap::new();
        let mut available: Vec<String> = Vec::new();
        let mut i: usize = 0;
        assert(files@.take(0) =~= Seq::<ParsedFile>::empty());
        assert(maps@.map_values(|t: StringHashMap<String>| table_view(t)) =~= Map::empty());
        assert(available@.map_values(|s: String| s@) =~= Seq::<Seq<char>>::empty());
        while i < files.len()
            invariant
                i <= files@.len(),
                maps@.map_values(|t: StringHashMap<String>| table_view(t)) == parsed_tables(
                    files@.take(i as int),
                ),
                available@.map_values(|s: String| s@) == parsed_langs(files@.take(i as int)),
            decreases files@.len() - i,
        {
            let ghost old_maps = maps;
            let ghost old_av = available;
            assert(files@.take(i + 1).drop_last() =~= files@.take(i as int));
            assert(files@.take(i + 1).last() == files@[i as int]);
            match &files[i].1 {
                Some(pairs) => {
                    let table = table_from_pairs(pairs);
                    maps.insert(files[i].0.clone(), table);
                    available.push(files[i].0.clone());
                    assert(maps@.map_values(|t: StringHashMap<String>| table_view(t))
                        =~= old_maps@.map_values(|t: StringHashMap<String>| table_view(t)).insert(
                        files@[i as int].0@,
                        table_view(table),
                    ));
                    assert(available@.map_values(|s: String| s@) =~= old_av@.map_values(
                        |s: String| s@,
                    ).push(files@[i as int].0@));
                },
                None => {},
            }
            i = i + 1;
        }
        assert(files@.take(files@.len() as int) =~= files@);
        proof {
            lemma_parsed_langs(files@);
        }
        if maps.is_empty() {
            proof {
                reveal_strlit("zh");
                reveal_strlit("en");
                if parsed_langs(files@).len() > 0 {
                    assert(parsed_langs(files@).contains(parsed_langs(files@)[0]));
                    assert(maps@.map_values(|t: StringHashMap<String>| table_view(t)).contains_key(
                        parsed_langs(files@)[0],
                    ));
                }
            }
            let zh = parse_or_empty(DEFAULT_ZH);
            let en = parse_or_empty(DEFAULT_EN);
            maps.insert("zh".to_owned(), zh);
            maps.insert("en".to_owned(), en);
            available = Vec::new();
            available.push("zh".to_owned());
            available.push("en".to_owned());
            assert(maps@.map_values(|t: StringHashMap<String>| table_view(t)) =~= Map::empty().insert(
                "zh"@,
                table_or_empty(DEFAULT_ZH@),
            ).insert("en"@, table_or_empty(DEFAULT_EN@)));
            assert(available@.map_values(|s: String| s@) =~= seq!["zh"@, "en"@]);
            assert(seq!["zh"@, "en"@].no_duplicates()) by {
                assert("zh"@[0] != "en"@[0]);
            }
        } else {
            assert(parsed_langs(files@).len() > 0) by {
                assert(!(maps@.dom() =~= Set::<Seq<char>>::empty()));
                let l = choose|l: Seq<char>| #[trigger] maps@.dom().contains(l);
                assert(maps@.map_values(|t: StringHashMap<String>| table_view(t)).contains_key(l));
                assert(parsed_langs(files@).contains(l));
            }
        }
        let ghost langs = available@.map_values(|s: String| s@);
        assert(langs == with_fallback_langs(parsed_langs(files@)));
        let current = if holds_text(&available, "zh") {
            "zh".to_owned()
        } else if available.len() > 0 {
            available[0].clone()
        } else {
            "zh".to_owned()
        };
        let t = Translations { current_lang: current, maps, available_langs: available };
        proof {
            reveal_strlit("zh");
            reveal_strlit("en");
            if langs.len() > 0 {
                assert(langs.contains(langs[0]));
            }
            assert(langs.len() > 0);
        }
        t
    }

    /// The translations built from the language files found: each pair holds a language
    /// code and the text of its file, which is parsed as a JSON object of strings. A file
    /// whose text does not parse is passed over; when no file is left, the built-in `zh` and
    /// `en` tables are used. The language in use is `zh` when it is offered, else the first
    /// one offered. When no two files share a code, no language is offered twice.
    pub fn from_files(files: Vec<(String, String)>) -> (t: Self)
        ensures
            t.tables() == startup_tables(files@),
            t.langs() == startup_langs(files@),
            t.current_lang@ == default_lang(startup_langs(files@)),
            t.wf(),
            distinct_codes(files@) ==> t.langs().no_duplicates(),
    {
        let mut parsed: Vec<ParsedFile> = Vec::new();
        let mut i: usize = 0;
        while i < files.len()
            invariant
                i <= files@.len(),
                parses_of(files@.take(i as int), parsed@),
            decreases files@.len() - i,
        {
            let entry = (files[i].0.clone(), parse_string_table(files[i].1.as_str()));
            let ghost before = parsed@;
            parsed.push(entry);
            assert forall|j: int| 0 <= j < i + 1 implies {
                &&& (#[trigger] parsed@[j]).0@ == files@.take(i + 1)[j].0@
                &&& (parsed@[j].1 is Some <==> json_string_table(files@.take(i + 1)[j].1@) is Some)
                &&& parsed@[j].1 matches Some(pairs) ==> pairs_map(pairs@) == json_string_table(
                    files@.take(i + 1)[j].1@,
                )->0
            } by {
                if j < i {
                    assert(parsed@[j] == before[j]);
                    assert(files@.take(i + 1)[j] == files@.take(i as int)[j]);
                }
            }
            i = i + 1;
        }
        assert(files@.take(files@.len() as int) =~= files@);
        proof {
            lemma_parses_agree(files@, parsed@);
        }
        Self::from_parsed(parsed)
    }

    /// The text for `key` in the language in use: its translation, or the key itself when the
    /// table of that language has none.
    pub fn tr(&self, key: &str) -> (r: String)
        ensures
            r@ == translate(self.tables(), self.current_lang@, key@),
    {
        match self.maps.get(self.current_lang.as_str()) {
            Some(table) => {
                assert(self.tables()[self.current_lang@] == table_view(*table));
                match table.get(key) {
                    Some(s) => s.clone(),
                    None => key.to_owned(),
                }
            },
            None => key.to_owned(),
        }
    }

    /// The language codes offered, in order.
    pub fn available_langs(&self) -> (r: &[String])
        ensures
            r@ == self.available_langs@,
    {
        self.available_langs.as_slice()
    }

    /// Whether language `lang` has a table.
    pub fn has_language(&self, lang: &str) -> (r: bool)
        ensures
            r == self.tables().contains_key(lang@),
    {
        self.maps.contains_key(lang)
    }

    /// Switches to language `lang` when it differs from the one in use and has a table;
    /// says whether it switched.
    pub fn select_language(&mut self, lang: &str) -> (switched: bool)
        ensures
            switched == (lang@ != old(self).current_lang@ && old(self).tables().contains_key(lang@)),
            final(self).current_lang@ == (if switched { lang@ } else { old(self).current_lang@ }),
            final(self).tables() == old(self).tables(),
            final(self).langs() == old(self).langs(),
            old(self).wf() ==> final(self).wf(),
    {
        if !same_text(lang, self.current_lang.as_str()) && self.maps.contains_key(lang) {
            self.current_lang = lang.to_owned();
            true
        } else {
            false
        }
    }

    /// Takes up language `lang` read from the configuration: that language when it has a
    /// table, else the first language offered, else the one in use stays.
    pub fn settle_language(&mut self, lang: &str)
        ensures
            final(self).current_lang@ == settled_lang(
                old(self).tables(),
                old(self).langs(),
                old(self).current_lang@,
                lang@,
            ),
            final(self).tables() == old(self).tables(),
            final(self).langs() == old(self).langs(),
            old(self).wf() ==> final(self).wf(),
    {
        if self.maps.contains_key(lang) {
            self.current_lang = lang.to_owned();
        } else if self.available_langs.len() > 0 {
            self.current_lang = self.available_langs[0].clone();
            assert(self.langs()[0] == self.current_lang@);
            assert(self.langs().contains(self.langs()[0]));
        }
    }
}

/// The language taken up from a configuration that names `lang`.
pub open spec fn settled_lang(
    tables: Map<Seq<char>, Map<Seq<char>, Seq<char>>>,
    langs: Seq<Seq<char>>,
    current: Seq<char>,
    lang: Seq<char>,
) -> Seq<char> {
    if tables.contains_key(lang) {
        lang
    } else if langs.len() > 0 {
        langs[0]
    } else {
        current
    }
}

/// Position of the last `.` in `s`, or -1 when there is none.
pub open spec fn last_dot(s: Seq<char>) -> int
    decreases s.len(),
{
    if s.len() == 0 {
        -1
    } else if s.last() == '.' {
        s.len() - 1
    } else {
        last_dot(s.drop_last())
    }
}

/// The language code that the file named `name` holds: the stem of a file with extension
/// `json`, as `Path::file_stem` and `Path::extension` split a file name at its last dot
/// (a dot that starts the name begins no extension).
pub open spec fn json_lang_code_of(name: Seq<char>) -> Option<Seq<char>> {
    let i = last_dot(name);
    if i > 0 && name.skip(i + 1) == "json"@ {
        Some(name.take(i))
    } else {
        None
    }
}

proof fn lemma_last_dot(s: Seq<char>, i: int)
    requires
        0 <= i <= s.len(),
        forall|k: int| i <= k < s.len() ==> #[trigger] s[k] != '.',
        i > 0 ==> s[i - 1] == '.',
    ensures
        last_dot(s) == i - 1,
    decreases s.len(),
{
    if s.len() > 0 && s.len() != i {
        let t = s.drop_last();
        assert forall|k: int| i <= k < t.len() implies #[trigger] t[k] != '.' by {
            assert(t[k] == s[k]);
        }
        if i > 0 {
            assert(t[i - 1] == s[i - 1]);
        }
        assert(s.last() != '.');
        lemma_last_dot(t, i);
    }
}

/// The language code of the file named `file_name` when it is a `.json` file.
pub fn json_lang_code(file_name: &str) -> (r: Option<String>)
    ensures
        r matches Some(code) ==> json_lang_code_of(file_name@) == Some(code@),
        r is None ==> json_lang_code_of(file_name@) is None,
{
    let v = chars_of(file_name);
    let n = v.len();
    let mut i: usize = n;
    while i > 0 && v[i - 1] != '.'
        invariant
            n == v@.len(),
            i <= n,
            forall|k: int| i <= k < n ==> #[trigger] v@[k] != '.',
        decreases i,
    {
        i = i - 1;
    }
    proof {
        lemma_last_dot(v@, i as int);
    }
    if i > 1 {
        let ext = string_of_chars(&v, i, n);
        assert(v@.skip(i as int) =~= v@.subrange(i as int, n as int));
        if same_text(ext.as_str(), "json") {
            let code = string_of_chars(&v, 0, i - 1);
            assert(v@.take(i - 1) =~= v@.subrange(0, i - 1));
            return Some(code);
        }
    }
    None
}

} // verus!
