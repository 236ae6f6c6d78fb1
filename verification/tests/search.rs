use tables::search::{Searchable, Searcher};

#[test]
fn search_finds_substrings_in_a_group() {
    let mut searcher = Searcher::new();
    searcher.write("USER".to_owned(), "name:tea ".to_owned());
    searcher.write("USER".to_owned(), "desc:green".to_owned());
    searcher.write("MERCHANT".to_owned(), "id:7".to_owned());
    assert!(searcher.search_one("USER", "tea desc"));
    assert!(searcher.search_one("USER", ""));
    assert!(!searcher.search_one("USER", "id:7"));
    assert!(searcher.search_one("MERCHANT", "id:7"));
    assert!(!searcher.search_one("NOBODY", ""));
}

#[test]
fn search_matches_any_word() {
    let mut searcher = Searcher::new();
    searcher.write_many("USER".to_owned(), vec!["black".to_owned(), "tea".to_owned()]);
    let hit = vec!["coffee".to_owned(), "cktea".to_owned()];
    let miss = vec!["coffee".to_owned(), "milk".to_owned()];
    assert!(searcher.search("USER", &hit));
    assert!(!searcher.search("USER", &miss));
    assert!(!searcher.search("USER", &vec![]));
    assert!(!searcher.search("OTHER", &hit));
}

#[test]
fn write_many_makes_the_group_even_without_text() {
    let mut searcher = Searcher::new();
    searcher.write_many("EMPTY".to_owned(), vec![]);
    assert!(searcher.search_one("EMPTY", ""));
    assert!(!searcher.search_one("EMPTY", "x"));
}

struct Tea {
    name: String,
}

impl Searchable for Tea {
    fn fill_haystack(&self, query: &mut Searcher) {
        query.write("USER".to_owned(), self.name.to_lowercase());
    }
}

#[test]
fn searchable_fills_a_searcher() {
    let searcher = Searcher::from_entry(&Tea { name: "Oolong".to_owned() });
    assert!(searcher.search_one("USER", "long"));
    assert!(!searcher.search_one("USER", "Oolong"));
}
