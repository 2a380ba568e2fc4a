use vstd::prelude::*;

use crate::errors::OdtError;

verus! {

/// The emphasis kinds a style definition can resolve to.
#[derive(Clone, Copy, Debug, PartialEq, Eq, Structural)]
pub enum Style {
    Normal,
    Bold,
    Italics,
}

/// One committed style definition: a name and the emphasis it resolves to.
pub struct StyleEntry {
    pub name: String,
    pub style: Style,
}

/// The style a builder commits when its style slot holds `o`: the recorded
/// style, or `Normal` when no formatting property was recorded.
pub open spec fn commit_style(o: Option<Style>) -> Style {
    match o {
        Option::Some(s) => s,
        Option::None => Style::Normal,
    }
}

/// The style that `t` maps `key` to, taking the latest entry with that name,
/// as an insertion into a map would.
pub open spec fn table_lookup(t: Seq<(Seq<char>, Style)>, key: Seq<char>) -> Option<Style>
    decreases t.len(),
{
    if t.len() == 0 {
        None
    } else if t.last().0 == key {
        Some(t.last().1)
    } else {
        table_lookup(t.drop_last(), key)
    }
}

/// The committed style definitions, in commit order.
pub struct StyleTable {
    entries: Vec<StyleEntry>,
}

impl View for StyleTable {
    type V = Seq<(Seq<char>, Style)>;

    closed spec fn view(&self) -> Seq<(Seq<char>, Style)> {
        self.entries@.map_values(|e: StyleEntry| (e.name@, e.style))
    }
}

impl StyleTable {
    /// An empty table.
    pub fn new() -> (r: Self)
        ensures
            r@ == Seq::<(Seq<char>, Style)>::empty(),
    {
        let t = StyleTable { entries: Vec::new() };
        proof {
            assert(t@ =~= Seq::<(Seq<char>, Style)>::empty());
        }
        t
    }

    /// Records that `name` resolves to `style`, superseding earlier entries
    /// with the same name.
    pub fn insert(&mut self, name: String, style: Style)
        ensures
            final(self)@ == old(self)@.push((name@, style)),
    {
        let ghost before = self@;
        let ghost n = name@;
        self.entries.push(StyleEntry { name, style });
        proof {
            assert(final(self)@ =~= before.push((n, style)));
        }
    }

    /// The style `key` resolves to, if any entry carries that name.
    pub fn get(&self, key: &String) -> (r: Option<Style>)
        ensures
            r == table_lookup(self@, key@),
    {
        let mut i: usize = self.entries.len();
        proof {
            assert(self@.take(i as int) =~= self@);
        }
        while i > 0
            invariant
                i <= self.entries.len(),
                table_lookup(self@, key@) == table_lookup(self@.take(i as int), key@),
            decreases i,
        {
            let j = i - 1;
            proof {
                assert(self@.take(j + 1).drop_last() =~= self@.take(j as int));
                assert(self@.take(j + 1).last() == self@[j as int]);
            }
            if self.entries[j].name == *key {
                return Some(self.entries[j].style);
            }
            i = j;
        }
        proof {
            assert(self@.take(0) =~= Seq::<(Seq<char>, Style)>::empty());
        }
        None
    }
}

/// An incremental builder for one style definition: it collects the name and
/// the resolved style, and commits them into the table as one entry.
#[derive(Debug)]
pub struct HashAdder {
    pub name: Option<String>,
    pub style: Option<Style>,
}

/// The pending name of a builder, as a sequence of characters.
pub open spec fn pending_name_view(n: Option<String>) -> Option<Seq<char>> {
    match n {
        Option::Some(s) => Some(s@),
        Option::None => None,
    }
}

impl HashAdder {
    /// An empty builder: no name and no style recorded yet.
    pub fn default() -> (r: Self)
        ensures
            r.name is None,
            r.style is None,
    {
        HashAdder { name: None, style: None }
    }

    /// Records the definition's name. Declaring a second name before the
    /// builder commits is a violation and leaves the builder unchanged.
    pub fn add_name(&mut self, name: String) -> (r: Result<(), OdtError>)
        ensures
            old(self).name is None ==> r is Ok && final(self).name == Some(name)
                && final(self).style == old(self).style,
            old(self).name is Some ==> (r matches Err(e) && e is StyleBuilderViolation
                && *final(self) == *old(self)),
    {
        if self.name.is_some() {
            return Err(OdtError::StyleBuilderViolation);
        }
        self.name = Some(name);
        Ok(())
    }

    /// Records the resolved style. Recording a second style before the
    /// builder commits is a violation and leaves the builder unchanged.
    pub fn add_style(&mut self, style: Style) -> (r: Result<(), OdtError>)
        ensures
            old(self).style is None ==> r is Ok && final(self).style == Some(style)
                && final(self).name == old(self).name,
            old(self).style is Some ==> (r matches Err(e) && e is StyleBuilderViolation
                && *final(self) == *old(self)),
    {
        if self.style.is_some() {
            return Err(OdtError::StyleBuilderViolation);
        }
        self.style = Some(style);
        Ok(())
    }

    /// Clears both slots.
    pub fn reset(&mut self)
        ensures
            final(self).name is None,
            final(self).style is None,
    {
        self.name = None;
        self.style = None;
    }

    /// Commits the pending definition into `hash`: the name is required, the
    /// style defaults to `Normal`. On success both slots are cleared.
    pub fn add_to_hash(&mut self, hash: &mut StyleTable) -> (r: Result<(), OdtError>)
        ensures
            old(self).name matches Some(n) ==> r is Ok
                && final(hash)@ == old(hash)@.push((n@, commit_style(old(self).style)))
                && final(self).name is None && final(self).style is None,
            old(self).name is None ==> (r matches Err(e) && e is StyleBuilderViolation
                && *final(self) == *old(self) && *final(hash) == *old(hash)),
    {
        let style = match self.style {
            Some(s) => s,
            None => Style::Normal,
        };
        match &self.name {
            None => Err(OdtError::StyleBuilderViolation),
            Some(n) => {
                let committed = n.clone();
                hash.insert(committed, style);
                self.reset();
                Ok(())
            },
        }
    }
}

} // verus!
