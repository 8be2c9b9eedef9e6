use std::collections::HashSet;

use zynsearch::boolean_query::{combine_clause_results, BooleanQuery, Operator, QueryClause};

#[test]
fn test_boolean_ice_cream_query() {
    let mock_database = |word: &str| -> HashSet<u32> {
        match word {
            "chocolate" => HashSet::from([1, 2]),
            "sprinkles" => HashSet::from([1, 3]),
            "peanuts" => HashSet::from([2]),
            _ => HashSet::new(),
        }
    };

    let query = BooleanQuery {
        clauses: vec![
            QueryClause { operator: Operator::Must, word: "chocolate".to_string() },
            QueryClause { operator: Operator::Should, word: "sprinkles".to_string() },
            QueryClause { operator: Operator::MustNot, word: "peanuts".to_string() },
        ],
    };

    let results = query.execute(mock_database);
    assert_eq!(results.len(), 1);
    assert!(results.contains(&1));
}

#[test]
fn should_clauses_decide_when_no_clause_is_must() {
    let query = BooleanQuery {
        clauses: vec![
            QueryClause { operator: Operator::Should, word: "a".to_string() },
            QueryClause { operator: Operator::Should, word: "b".to_string() },
            QueryClause { operator: Operator::MustNot, word: "c".to_string() },
        ],
    };
    let results = query.execute(|word: &str| -> HashSet<u32> {
        match word {
            "a" => HashSet::from([1, 2]),
            "b" => HashSet::from([3]),
            "c" => HashSet::from([2]),
            _ => HashSet::new(),
        }
    });
    assert_eq!(results, HashSet::from([1, 3]));
}

#[test]
fn every_must_clause_narrows_the_result() {
    let clauses = vec![
        QueryClause { operator: Operator::Must, word: "x".to_string() },
        QueryClause { operator: Operator::Must, word: "y".to_string() },
        QueryClause { operator: Operator::Should, word: "z".to_string() },
    ];
    let results = vec![HashSet::from([1, 2, 3]), HashSet::from([2, 3, 4]), HashSet::from([9])];
    assert_eq!(combine_clause_results(&clauses, &results), HashSet::from([2, 3]));
}

#[test]
fn must_not_always_excludes() {
    let clauses = vec![
        QueryClause { operator: Operator::Must, word: "x".to_string() },
        QueryClause { operator: Operator::MustNot, word: "y".to_string() },
    ];
    let results = vec![HashSet::from([5, 6]), HashSet::from([5, 6])];
    assert!(combine_clause_results(&clauses, &results).is_empty());
}

#[test]
fn an_empty_query_answers_nothing() {
    let query = BooleanQuery { clauses: vec![] };
    assert!(query.execute(|_w: &str| HashSet::from([1])).is_empty());
}
