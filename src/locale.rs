//! Localized message lookup and `{}` placeholder filling.

use vstd::prelude::*;

verus! {

/// One localized message: its section, its key and its text.
#[derive(Debug, Clone)]
pub struct LocaleEntry {
    pub section: String,
    pub key: String,
    pub text: String,
}

/// The messages of one language.
pub struct Locale {
    pub entries: Vec<LocaleEntry>,
}

/// The text of the first entry for (`section`, `key`), or the key itself
/// when the language has no such message.
pub open spec fn lookup(entries: Seq<LocaleEntry>, section: Seq<char>, key: Seq<char>) -> Seq<char>
    decreases entries.len(),
{
    if entries.len() == 0 {
        key
    } else if entries[0].section@ == section && entries[0].key@ == key {
        entries[0].text@
    } else {
        lookup(entries.drop_first(), section, key)
    }
}

/// `k` is the first position of a `{}` placeholder in `s`.
pub open spec fn first_placeholder(s: Seq<char>, k: int) -> bool {
    &&& 0 <= k && k + 1 < s.len()
    &&& s[k] == '{' && s[k + 1] == '}'
    &&& forall|j: int| 0 <= j < k ==> !(#[trigger] s[j] == '{' && s[j + 1] == '}')
}

/// `s` with its first `{}` replaced by `arg`; unchanged when it has none.
pub open spec fn replace_first_placeholder(s: Seq<char>, arg: Seq<char>) -> Seq<char> {
    if exists|k: int| first_placeholder(s, k) {
        let k = choose|k: int| first_placeholder(s, k);
        s.subrange(0, k) + arg + s.subrange(k + 2, s.len() as int)
    } else {
        s
    }
}

/// `template` with its placeholders filled by `args` in order, each argument
/// replacing the first `{}` left after the previous ones.
pub open spec fn fill_placeholders(template: Seq<char>, args: Seq<Seq<char>>) -> Seq<char>
    decreases args.len(),
{
    if args.len() == 0 {
        template
    } else {
        replace_first_placeholder(fill_placeholders(template, args.drop_last()), args.last())
    }
}

fn replace_first(s: &String, arg: &str) -> (r: String)
    ensures
        r@ == replace_first_placeholder(s@, arg@),
{
    let text = s.as_str();
    let n = text.unicode_len();
    let mut i: usize = 0;
    while i < n && n - i >= 2
        invariant
            i <= n,
            n == s@.len(),
            text@ == s@,
            forall|j: int| 0 <= j < i && j + 1 < n ==> !(#[trigger] s@[j] == '{' && s@[j + 1] == '}'),
        decreases n - i,
    {
        if text.get_char(i) == '{' && text.get_char(i + 1) == '}' {
            proof {
                assert(first_placeholder(s@, i as int));
                let k = choose|k: int| first_placeholder(s@, k);
                assert(k == i);
            }
            let mut out = String::from_str(text.substring_char(0, i));
            out.append(arg);
            out.append(text.substring_char(i + 2, n));
            return out;
        }
        i = i + 1;
    }
    proof {
        assert forall|k: int| !first_placeholder(s@, k) by {}
    }
    s.clone()
}

impl Locale {
    /// The message for (`section`, `key`), or `key` when there is none.
    pub fn get(&self, section: &str, key: &str) -> (r: String)
        ensures
            r@ == lookup(self.entries@, section@, key@),
    {
        let mut i: usize = 0;
        assert(self.entries@.subrange(0, self.entries@.len() as int) =~= self.entries@);
        while i < self.entries.len()
            invariant
                i <= self.entries@.len(),
                lookup(self.entries@, section@, key@) == lookup(
                    self.entries@.subrange(i as int, self.entries@.len() as int),
                    section@,
                    key@,
                ),
            decreases self.entries@.len() - i,
        {
            let ghost rest = self.entries@.subrange(i as int, self.entries@.len() as int);
            let e = &self.entries[i];
            if e.section.as_str().to_owned() == section.to_owned() && e.key.as_str().to_owned()
                == key.to_owned() {
                return e.text.clone();
            }
            proof {
                assert(rest.drop_first() =~= self.entries@.subrange(
                    i + 1,
                    self.entries@.len() as int,
                ));
            }
            i = i + 1;
        }
        key.to_owned()
    }

    /// The message for (`section`, `key`) with its `{}` placeholders filled
    /// by `args` in order.
    pub fn get_fmt(&self, section: &str, key: &str, args: &[&str]) -> (r: String)
        ensures
            r@ == fill_placeholders(
                lookup(self.entries@, section@, key@),
                args@.map_values(|a: &str| a@),
            ),
    {
        let mut result = self.get(section, key);
        let ghost template = result@;
        let mut i: usize = 0;
        while i < args.len()
            invariant
                i <= args@.len(),
                template == lookup(self.entries@, section@, key@),
                result@ == fill_placeholders(
                    template,
                    args@.subrange(0, i as int).map_values(|a: &str| a@),
                ),
            decreases args@.len() - i,
        {
            proof {
                assert(args@.subrange(0, i + 1).map_values(|a: &str| a@).drop_last()
                    =~= args@.subrange(0, i as int).map_values(|a: &str| a@));
            }
            result = replace_first(&result, args[i]);
            i = i + 1;
        }
        assert(args@.subrange(0, i as int) =~= args@);
        result
    }
}

/// Shorthand for `locale.get(section, key)`.
pub fn t(locale: &Locale, section: &str, key: &str) -> (r: String)
    ensures
        r@ == lookup(locale.entries@, section@, key@),
{
    locale.get(section, key)
}

/// Shorthand for `locale.get_fmt(section, key, args)`.
pub fn tf(locale: &Locale, section: &str, key: &str, args: &[&str]) -> (r: String)
    ensures
        r@ == fill_placeholders(lookup(locale.entries@, section@, key@), args@.map_values(|a: &str| a@)),
{
    locale.get_fmt(section, key, args)
}

} // verus!
