//! Settings as keys with values, and the folder in which documents lie.

use crate::text::{append_chars, chars_of, same_chars, string_of};
use vstd::prelude::*;

verus! {

/// Settings read from a file and from the environment.
#[derive(Debug, Clone)]
pub struct Configuration {
    prefix: String,
    path: String,
    /// Keys with their values. Of two entries with the same key the first
    /// counts.
    pub content: Vec<(String, String)>,
}

/// The keys and values of settings as texts.
pub open spec fn entries(c: Seq<(String, String)>) -> Seq<(Seq<char>, Seq<char>)> {
    c.map_values(|e: (String, String)| (e.0@, e.1@))
}

/// What settings hold.
#[verifier::ext_equal]
pub struct ConfigurationView {
    pub prefix: Seq<char>,
    pub path: Seq<char>,
    pub content: Seq<(Seq<char>, Seq<char>)>,
}

impl View for Configuration {
    type V = ConfigurationView;

    closed spec fn view(&self) -> ConfigurationView {
        ConfigurationView {
            prefix: self.prefix@,
            path: self.path@,
            content: entries(self.content@),
        }
    }
}

/// The value of the first entry with the key, or `default` where there is
/// none.
pub open spec fn lookup(c: Seq<(Seq<char>, Seq<char>)>, key: Seq<char>, default: Seq<char>) -> Seq<
    char,
>
    decreases c.len(),
{
    if c.len() == 0 {
        default
    } else if c[0].0 == key {
        c[0].1
    } else {
        lookup(c.drop_first(), key, default)
    }
}

/// The folder of the documents: the one that was set; or `orgflow` in the
/// home folder; or `orgflow` in the present folder where neither is known.
pub open spec fn folder(set: Option<Seq<char>>, home: Option<Seq<char>>) -> Seq<char> {
    match set {
        Some(f) => f,
        None => match home {
            Some(h) => h + "/orgflow"@,
            None => "./orgflow"@,
        },
    }
}

/// The view of a text that may be missing.
pub open spec fn text_view(s: Option<String>) -> Option<Seq<char>> {
    match s {
        Some(s) => Some(s@),
        None => None,
    }
}

impl Configuration {
    /// Settings without entries, for the file `config` and variables that
    /// begin with `ORGMODE`.
    pub fn _base() -> (r: Configuration)
        ensures
            r@ == (ConfigurationView {
                prefix: "ORGMODE"@,
                path: "config"@,
                content: Seq::empty(),
            }),
    {
        let r = Configuration {
            prefix: string_of(&chars_of("ORGMODE")),
            path: string_of(&chars_of("config")),
            content: Vec::new(),
        };
        assert(r@.content =~= Seq::<(Seq<char>, Seq<char>)>::empty());
        r
    }

    /// Takes the entries that were read.
    pub fn parse_config(&mut self, found: Vec<(String, String)>)
        ensures
            final(self)@ == (ConfigurationView { content: entries(found@), ..old(self)@ }),
    {
        self.content = found;
    }

    /// Settings for the file at `base`, with the entries that were read
    /// from it.
    pub fn with(base: &str, found: Vec<(String, String)>) -> (r: Configuration)
        ensures
            r@ == (ConfigurationView {
                prefix: "ORGMODE"@,
                path: base@,
                content: entries(found@),
            }),
    {
        let mut c = Configuration::_base();
        c.path = string_of(&chars_of(base));
        c.parse_config(found);
        c
    }

    /// Settings for the file that was named in the environment, or for the
    /// file `config` where none was named.
    pub fn from_env(named: Option<String>, found: Vec<(String, String)>) -> (r: Configuration)
        ensures
            r@ == (ConfigurationView {
                prefix: "ORGMODE"@,
                path: match named {
                    Some(p) => p@,
                    None => "config"@,
                },
                content: entries(found@),
            }),
    {
        match named {
            Some(p) => Configuration::with(p.as_str(), found),
            None => Configuration::with("config", found),
        }
    }

    /// The path of the file.
    pub fn path(&self) -> (r: &str)
        ensures
            r@ == self@.path,
    {
        self.path.as_str()
    }

    /// The beginning of the names of the variables.
    pub fn prefix(&self) -> (r: &str)
        ensures
            r@ == self@.prefix,
    {
        self.prefix.as_str()
    }

    /// The value of `key`, or `default` where the key is not set.
    pub fn get_or(&self, key: &str, default: &str) -> (r: String)
        ensures
            r@ == lookup(self@.content, key@, default@),
    {
        let k = chars_of(key);
        let mut i: usize = 0;
        let ghost all = entries(self.content@);
        assert(all.skip(0) =~= all);
        while i < self.content.len()
            invariant
                i <= self.content.len(),
                all == entries(self.content@),
                k@ == key@,
                lookup(all, key@, default@) == lookup(all.skip(i as int), key@, default@),
            decreases self.content.len() - i,
        {
            assert(all.skip(i as int)[0] == all[i as int]);
            if same_chars(&chars_of(self.content[i].0.as_str()), &k) {
                return self.content[i].1.clone();
            }
            assert(all.skip(i as int).drop_first() =~= all.skip(i + 1));
            i += 1;
        }
        string_of(&chars_of(default))
    }

    /// The folder of the documents, from the folder that was set and the
    /// home folder, as far as they are known.
    pub fn basefolder(set: Option<String>, home: Option<String>) -> (r: String)
        ensures
            r@ == folder(text_view(set), text_view(home)),
    {
        match set {
            Some(f) => f,
            None => match home {
                Some(h) => {
                    let mut r = chars_of(h.as_str());
                    append_chars(&mut r, &chars_of("/orgflow"));
                    string_of(&r)
                },
                None => string_of(&chars_of("./orgflow")),
            },
        }
    }
}

} // verus!
