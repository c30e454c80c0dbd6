//! The topic catalog: topics grouped by category, categories in name order.

use vstd::prelude::*;

use crate::text::{seq_lt, str_eq};

verus! {

broadcast use vstd::string::group_string_axioms;

/// Topic metadata rendered in the role card.
#[derive(Debug, Clone, Copy, PartialEq, Eq)]
pub struct Topic {
    pub id: &'static str,
    pub title: &'static str,
    pub description: &'static str,
}

#[verifier::ext_equal]
pub struct TopicModel {
    pub id: Seq<char>,
    pub title: Seq<char>,
    pub description: Seq<char>,
}

impl View for Topic {
    type V = TopicModel;

    open spec fn view(&self) -> TopicModel {
        TopicModel { id: self.id@, title: self.title@, description: self.description@ }
    }
}

pub open spec fn topics_model(v: Seq<Topic>) -> Seq<TopicModel> {
    v.map_values(|t: Topic| t@)
}

/// A catalog as a sequence of (category name, topics) pairs.
pub type CatalogModel = Seq<(Seq<char>, Seq<TopicModel>)>;

/// Category names appear in strictly increasing order (so each once),
/// and every category holds at least one topic.
pub open spec fn catalog_wf(c: CatalogModel) -> bool {
    &&& forall|i: int, j: int| 0 <= i < j < c.len() ==> seq_lt(#[trigger] c[i].0, #[trigger] c[j].0)
    &&& forall|i: int| 0 <= i < c.len() ==> (#[trigger] c[i]).1.len() > 0
}

/// The category names of the catalog, in order.
pub open spec fn category_names(c: CatalogModel) -> Seq<Seq<char>> {
    c.map_values(|e: (Seq<char>, Seq<TopicModel>)| e.0)
}

/// Whether `c` holds a category named `name`.
pub open spec fn has_category(c: CatalogModel, name: Seq<char>) -> bool {
    exists|i: int| 0 <= i < c.len() && (#[trigger] c[i]).0 == name
}

/// The topics of the category named `name`, if there is one.
pub open spec fn category_topics(c: CatalogModel, name: Seq<char>) -> Option<Seq<TopicModel>> {
    if has_category(c, name) {
        Some(c[choose|i: int| 0 <= i < c.len() && (#[trigger] c[i]).0 == name].1)
    } else {
        None
    }
}

/// All topics of the catalog, category after category.
pub open spec fn all_topics(c: CatalogModel) -> Seq<TopicModel>
    decreases c.len(),
{
    if c.len() == 0 {
        Seq::empty()
    } else {
        all_topics(c.drop_last()) + c.last().1
    }
}

/// Static topic catalog grouped by category.
#[derive(Debug, PartialEq, Eq)]
pub struct TopicCatalog {
    categories: Vec<(&'static str, Vec<Topic>)>,
}

pub open spec fn entry_model(e: (&'static str, Vec<Topic>)) -> (Seq<char>, Seq<TopicModel>) {
    (e.0@, topics_model(e.1@))
}

impl View for TopicCatalog {
    type V = CatalogModel;

    closed spec fn view(&self) -> CatalogModel {
        self.categories@.map_values(|e: (&'static str, Vec<Topic>)| entry_model(e))
    }
}

impl TopicCatalog {
    #[verifier::type_invariant]
    closed spec fn inv(self) -> bool {
        catalog_wf(self@)
    }

    /// Returns all category names, in order; the names are sorted and
    /// distinct.
    pub fn categories(&self) -> (r: Vec<String>)
        ensures
            r@.map_values(|s: String| s@) == category_names(self@),
            forall|i: int, j: int| 0 <= i < j < r@.len() ==> seq_lt(#[trigger] r@[i]@, #[trigger] r@[j]@),
    {
        proof {
            use_type_invariant(self);
        }
        let mut r: Vec<String> = Vec::new();
        let n = self.categories.len();
        for i in 0..n
            invariant
                n == self@.len(),
                self@ == self.categories@.map_values(|e: (&'static str, Vec<Topic>)| entry_model(e)),
                r@.len() == i,
                forall|k: int| 0 <= k < i ==> (#[trigger] r@[k])@ == self@[k].0,
        {
            r.push(self.categories[i].0.to_owned());
        }
        assert(r@.map_values(|s: String| s@) =~= category_names(self@));
        r
    }

    /// Returns whether a category exists.
    pub fn contains_category(&self, category: &str) -> (r: bool)
        ensures
            r == has_category(self@, category@),
    {
        let n = self.categories.len();
        for i in 0..n
            invariant
                n == self@.len(),
                self@ == self.categories@.map_values(|e: (&'static str, Vec<Topic>)| entry_model(e)),
                forall|k: int| 0 <= k < i ==> (#[trigger] self@[k]).0 != category@,
        {
            if str_eq(self.categories[i].0, category) {
                assert(self@[i as int].0 == category@);
                return true;
            }
        }
        false
    }

    /// Returns the topics of a category.
    pub fn topics_in_category(&self, category: &str) -> (r: Option<&[Topic]>)
        ensures
            match r {
                Some(ts) => category_topics(self@, category@) == Some(topics_model(ts@)) && ts@.len()
                    > 0,
                None => category_topics(self@, category@) is None,
            },
    {
        proof {
            use_type_invariant(self);
        }
        let n = self.categories.len();
        for i in 0..n
            invariant
                n == self@.len(),
                self@ == self.categories@.map_values(|e: (&'static str, Vec<Topic>)| entry_model(e)),
                catalog_wf(self@),
                forall|k: int| 0 <= k < i ==> (#[trigger] self@[k]).0 != category@,
        {
            if str_eq(self.categories[i].0, category) {
                proof {
                    assert(self@[i as int].0 == category@);
                    let j = choose|j: int| 0 <= j < self@.len() && (#[trigger] self@[j]).0 == category@;
                    if j != i {
                        if j < i {
                            assert(seq_lt(self@[j].0, self@[i as int].0));
                        } else {
                            assert(seq_lt(self@[i as int].0, self@[j].0));
                        }
                        crate::text::lemma_seq_lt_irreflexive(category@);
                    }
                    assert(self@[i as int].1.len() > 0);
                }
                return Some(self.categories[i].1.as_slice());
            }
        }
        None
    }

    /// Finds the first topic, in catalog order, with the given id.
    pub fn topic_by_id(&self, topic_id: &str) -> (r: Option<&Topic>)
        ensures
            match r {
                Some(t) => exists|k: int|
                    0 <= k < all_topics(self@).len() && all_topics(self@)[k] == t@ && t@.id
                        == topic_id@ && forall|j: int|
                        0 <= j < k ==> (#[trigger] all_topics(self@)[j]).id != topic_id@,
                None => forall|k: int|
                    0 <= k < all_topics(self@).len() ==> (#[trigger] all_topics(self@)[k]).id
                        != topic_id@,
            },
    {
        let n = self.categories.len();
        let ghost c = self@;
        assert(c.take(0) =~= Seq::<(Seq<char>, Seq<TopicModel>)>::empty());
        let mut i: usize = 0;
        while i < n
            invariant
                i <= n == c.len(),
                c == self@,
                c == self.categories@.map_values(|e: (&'static str, Vec<Topic>)| entry_model(e)),
                forall|k: int|
                    0 <= k < all_topics(c.take(i as int)).len() ==> (#[trigger] all_topics(
                        c.take(i as int),
                    )[k]).id != topic_id@,
            decreases n - i,
        {
            let topics = &self.categories[i].1;
            let m = topics.len();
            let ghost pre = all_topics(c.take(i as int));
            let ghost next = all_topics(c.take(i + 1));
            assert(c.take(i + 1).drop_last() =~= c.take(i as int));
            assert(next == pre + c[i as int].1);
            let mut j: usize = 0;
            while j < m
                invariant
                    i < n == c.len(),
                    c == self@,
                    j <= m == topics@.len(),
                    c[i as int].1 == topics_model(topics@),
                    pre == all_topics(c.take(i as int)),
                    next == all_topics(c.take(i + 1)),
                    next == pre + c[i as int].1,
                    forall|k: int|
                        0 <= k < pre.len() ==> (#[trigger] all_topics(c.take(i as int))[k]).id
                            != topic_id@,
                    forall|k: int| 0 <= k < j ==> (#[trigger] topics@[k]).id@ != topic_id@,
                decreases m - j,
            {
                if str_eq(topics[j].id, topic_id) {
                    proof {
                        lemma_all_topics_prefix(c, i as int + 1);
                        let full = all_topics(c);
                        let k = pre.len() + j;
                        assert(next[k] == topics@[j as int]@);
                        assert(full[k] == topics@[j as int]@);
                        assert forall|q: int| 0 <= q < k implies (#[trigger] full[q]).id
                            != topic_id@ by {
                            assert(full[q] == next[q]);
                            if q >= pre.len() {
                                assert(next[q] == topics@[q - pre.len()]@);
                            } else {
                                assert(next[q] == all_topics(c.take(i as int))[q]);
                            }
                        }
                    }
                    return Some(&topics[j]);
                }
                j = j + 1;
            }
            assert forall|k: int| 0 <= k < next.len() implies (#[trigger] next[k]).id
                != topic_id@ by {
                if k >= pre.len() {
                    assert(next[k] == topics@[k - pre.len()]@);
                } else {
                    assert(next[k] == all_topics(c.take(i as int))[k]);
                }
            }
            i = i + 1;
        }
        assert(c.take(n as int) =~= c);
        None
    }
}

/// The topics of a prefix of the catalog are a prefix of all its topics.
pub proof fn lemma_all_topics_prefix(c: CatalogModel, i: int)
    requires
        0 <= i <= c.len(),
    ensures
        all_topics(c.take(i)).len() <= all_topics(c).len(),
        forall|k: int|
            0 <= k < all_topics(c.take(i)).len() ==> #[trigger] all_topics(c.take(i))[k]
                == all_topics(c)[k],
    decreases c.len() - i,
{
    if i < c.len() {
        lemma_all_topics_prefix(c, i + 1);
        assert(c.take(i + 1).drop_last() =~= c.take(i));
        assert(all_topics(c.take(i + 1)) == all_topics(c.take(i)) + c[i].1);
        assert forall|k: int| 0 <= k < all_topics(c.take(i)).len() implies #[trigger] all_topics(
            c.take(i),
        )[k] == all_topics(c)[k] by {
            assert(all_topics(c.take(i + 1))[k] == all_topics(c.take(i))[k]);
        }
    } else {
        assert(c.take(i) =~= c);
    }
}

/// The contents of the default catalog.
pub open spec fn default_catalog_model() -> CatalogModel {
    seq![
        (
            "Animals"@,
            seq![
                TopicModel { id: "animals-red-panda"@, title: "Red Panda"@, description: "A tree-loving mammal with a striped tail and calm personality."@ },
                TopicModel { id: "animals-rhino"@, title: "Rhino"@, description: "A heavy herbivore known for its protective horn and thick hide."@ },
                TopicModel { id: "animals-butterfly"@, title: "Butterfly"@, description: "A colorful flying insect often seen around flowers."@ },
                TopicModel { id: "animals-husky"@, title: "Husky"@, description: "A high-energy dog breed built for cold weather and teamwork."@ },
            ],
        ),
        (
            "Countries"@,
            seq![
                TopicModel { id: "countries-japan"@, title: "Japan"@, description: "An island nation known for sushi, anime, and advanced trains."@ },
                TopicModel { id: "countries-brazil"@, title: "Brazil"@, description: "The largest South American country and home of the Amazon."@ },
                TopicModel { id: "countries-egypt"@, title: "Egypt"@, description: "A North African country famous for the pyramids and Nile river."@ },
                TopicModel { id: "countries-canada"@, title: "Canada"@, description: "A large northern country known for forests, lakes, and hockey."@ },
            ],
        ),
        (
            "Foods"@,
            seq![
                TopicModel { id: "foods-pizza"@, title: "Pizza"@, description: "A baked dish with crust, sauce, cheese, and many topping options."@ },
                TopicModel { id: "foods-ramen"@, title: "Ramen"@, description: "A noodle soup served with broth and toppings like egg or pork."@ },
                TopicModel { id: "foods-burger"@, title: "Burger"@, description: "A sandwich made with a cooked patty inside a bun."@ },
                TopicModel { id: "foods-taco"@, title: "Taco"@, description: "A folded tortilla filled with meats, vegetables, and sauces."@ },
            ],
        ),
    ]
}

/// Default catalog values for role/topic selection.
pub fn default_catalog() -> (c: TopicCatalog)
    ensures
        c@ == default_catalog_model(),
{
    let animals = vec![
        Topic {
            id: "animals-red-panda",
            title: "Red Panda",
            description: "A tree-loving mammal with a striped tail and calm personality.",
        },
        Topic {
            id: "animals-rhino",
            title: "Rhino",
            description: "A heavy herbivore known for its protective horn and thick hide.",
        },
        Topic {
            id: "animals-butterfly",
            title: "Butterfly",
            description: "A colorful flying insect often seen around flowers.",
        },
        Topic {
            id: "animals-husky",
            title: "Husky",
            description: "A high-energy dog breed built for cold weather and teamwork.",
        },
    ];
    let countries = vec![
        Topic {
            id: "countries-japan",
            title: "Japan",
            description: "An island nation known for sushi, anime, and advanced trains.",
        },
        Topic {
            id: "countries-brazil",
            title: "Brazil",
            description: "The largest South American country and home of the Amazon.",
        },
        Topic {
            id: "countries-egypt",
            title: "Egypt",
            description: "A North African country famous for the pyramids and Nile river.",
        },
        Topic {
            id: "countries-canada",
            title: "Canada",
            description: "A large northern country known for forests, lakes, and hockey.",
        },
    ];
    let foods = vec![
        Topic {
            id: "foods-pizza",
            title: "Pizza",
            description: "A baked dish with crust, sauce, cheese, and many topping options.",
        },
        Topic {
            id: "foods-ramen",
            title: "Ramen",
            description: "A noodle soup served with broth and toppings like egg or pork.",
        },
        Topic {
            id: "foods-burger",
            title: "Burger",
            description: "A sandwich made with a cooked patty inside a bun.",
        },
        Topic {
            id: "foods-taco",
            title: "Taco",
            description: "A folded tortilla filled with meats, vegetables, and sauces.",
        },
    ];
    assert(topics_model(animals@) =~= default_catalog_model()[0].1);
    assert(topics_model(countries@) =~= default_catalog_model()[1].1);
    assert(topics_model(foods@) =~= default_catalog_model()[2].1);
    let mut categories: Vec<(&'static str, Vec<Topic>)> = Vec::new();
    categories.push(("Animals", animals));
    categories.push(("Countries", countries));
    categories.push(("Foods", foods));
    proof {
        reveal_strlit("Animals");
        reveal_strlit("Countries");
        reveal_strlit("Foods");
        let m = categories@.map_values(|e: (&'static str, Vec<Topic>)| entry_model(e));
        assert(m =~= default_catalog_model());
        assert(seq_lt("Animals"@, "Countries"@));
        assert(seq_lt("Animals"@, "Foods"@));
        assert(seq_lt("Countries"@, "Foods"@));
        assert(catalog_wf(m));
    }
    TopicCatalog { categories }
}

} // verus!
