use vstd::prelude::*;
use crate::matcher::{StructMatcher, StructProperties};
use crate::parser::FieldNotFound;
use crate::value::{copy_strings, strings_view, Value, ValueView};

verus! {

/// A sample record type: a person with a name, an age and interests.
#[derive(Debug, Clone, PartialEq)]
pub struct Person {
    pub name: String,
    pub age: u32,
    pub interests: Vec<String>,
}

/// The fields of [`Person`].
#[allow(non_camel_case_types)]
#[derive(Debug, Clone, Copy, PartialEq, Eq, Structural)]
pub enum PersonProperties {
    name,
    age,
    interests,
}

/// `c` is `w`, or the upper-case ASCII letter of `w`.
pub open spec fn same_letter(c: char, w: char) -> bool {
    c == w || ('A' <= c && c <= 'Z' && (c as u32) + 32 == w as u32)
}

/// `name` is `word` up to the case of ASCII letters. For the lower-case ASCII
/// field names of [`Person`] this is the same as comparing the Unicode lower
/// case of `name` with `word`.
pub open spec fn names_word(name: Seq<char>, word: Seq<char>) -> bool {
    name.len() == word.len() && forall|k: int| 0 <= k < name.len() ==> same_letter(#[trigger] name[k], word[k])
}

/// Whether `name` is `word` up to the case of ASCII letters.
fn is_word(name: &str, word: &[char]) -> (r: bool)
    ensures
        r == names_word(name@, word@),
{
    let n = crate::text::chars_of(name);
    if n.len() != word.len() {
        return false;
    }
    let mut k: usize = 0;
    while k < n.len()
        invariant
            n@ == name@,
            n@.len() == word@.len(),
            k <= n@.len(),
            forall|j: int| 0 <= j < k ==> same_letter(#[trigger] n@[j], word@[j]),
        decreases n@.len() - k,
    {
        let c = n[k];
        let w = word[k];
        if !(c == w || ('A' <= c && c <= 'Z' && (c as u32) + 32 == w as u32)) {
            return false;
        }
        k = k + 1;
    }
    true
}

impl StructProperties for PersonProperties {
    open spec fn spec_from_name(name: Seq<char>) -> Option<Self> {
        if names_word(name, seq!['n', 'a', 'm', 'e']) {
            Some(PersonProperties::name)
        } else if names_word(name, seq!['a', 'g', 'e']) {
            Some(PersonProperties::age)
        } else if names_word(name, seq!['i', 'n', 't', 'e', 'r', 'e', 's', 't', 's']) {
            Some(PersonProperties::interests)
        } else {
            None
        }
    }

    open spec fn spec_value_type(self) -> ValueView {
        match self {
            PersonProperties::name => ValueView::String(Seq::empty()),
            PersonProperties::age => ValueView::Int(0),
            PersonProperties::interests => ValueView::VecString(Seq::empty()),
        }
    }

    fn from_name(name: &str) -> (r: Option<Self>) {
        let name_word = ['n', 'a', 'm', 'e'];
        let age_word = ['a', 'g', 'e'];
        let interests_word = ['i', 'n', 't', 'e', 'r', 'e', 's', 't', 's'];
        proof {
            assert(name_word@ =~= seq!['n', 'a', 'm', 'e']);
            assert(age_word@ =~= seq!['a', 'g', 'e']);
            assert(interests_word@ =~= seq!['i', 'n', 't', 'e', 'r', 'e', 's', 't', 's']);
        }
        if is_word(name, &name_word) {
            Some(PersonProperties::name)
        } else if is_word(name, &age_word) {
            Some(PersonProperties::age)
        } else if is_word(name, &interests_word) {
            Some(PersonProperties::interests)
        } else {
            None
        }
    }

    fn valid_fields() -> (r: Vec<&'static str>) {
        let r = vec!["name", "age", "interests"];
        proof {
            reveal_strlit("name");
            reveal_strlit("age");
            reveal_strlit("interests");
            assert("name"@ =~= seq!['n', 'a', 'm', 'e']);
            assert("age"@ =~= seq!['a', 'g', 'e']);
            assert("interests"@ =~= seq!['i', 'n', 't', 'e', 'r', 'e', 's', 't', 's']);
            assert(r@[0]@ == "name"@);
        }
        r
    }

    fn get_value_type(&self) -> (r: Value) {
        match self {
            PersonProperties::name => Value::String(String::new()),
            PersonProperties::age => Value::Int(0),
            PersonProperties::interests => {
                let none: Vec<String> = Vec::new();
                assert(strings_view(none@) =~= Seq::<Seq<char>>::empty());
                Value::VecString(none)
            },
        }
    }
}

impl std::str::FromStr for PersonProperties {
    type Err = FieldNotFound;

    fn from_str(property_string: &str) -> Result<Self, FieldNotFound> {
        match PersonProperties::from_name(property_string) {
            Some(property) => Ok(property),
            None => Err(FieldNotFound::new(property_string)),
        }
    }
}

impl StructMatcher<PersonProperties> for Person {
    /// An age beyond `i32::MAX` has no value that a query can compare with.
    open spec fn property_value(&self, property: PersonProperties) -> Option<ValueView> {
        match property {
            PersonProperties::name => Some(ValueView::String(self.name@)),
            PersonProperties::age => if self.age <= i32::MAX {
                Some(ValueView::Int(self.age as i32))
            } else {
                None
            },
            PersonProperties::interests => Some(ValueView::VecString(strings_view(self.interests@))),
        }
    }

    fn get_property_value(&self, property: &PersonProperties) -> (r: Option<Value>) {
        match property {
            PersonProperties::name => Some(Value::String(self.name.clone())),
            PersonProperties::age => if self.age <= 2147483647 {
                Some(Value::Int(self.age as i32))
            } else {
                None
            },
            PersonProperties::interests => Some(Value::VecString(copy_strings(&self.interests))),
        }
    }
}

} // verus!
