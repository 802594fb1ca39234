use bs_nfts::royalties::{
    ContractError, ContributorListResponse, ContributorMsg, ContributorResponse, InstantiateMsg,
    RoyaltyContract,
};

/// A royalty contract set up for a test: one default contributor, and any
/// others the test adds.
struct TestSuite {
    contract: RoyaltyContract,
}

struct TestSuiteBuilder {
    contributors: Vec<ContributorMsg>,
}

impl TestSuiteBuilder {
    fn new() -> Self {
        TestSuiteBuilder {
            contributors: vec![ContributorMsg {
                role: String::from("owner"),
                share: 70,
                address: String::from("owner0000"),
            }],
        }
    }

    fn with_contributors(mut self, contributors: Vec<ContributorMsg>) -> Self {
        self.contributors.extend(contributors);
        self
    }

    fn build(self) -> TestSuite {
        let contract = RoyaltyContract::instantiate(InstantiateMsg {
            contributors: self.contributors,
        })
        .unwrap();
        TestSuite { contract }
    }
}

impl TestSuite {
    fn query_contributors(
        &self,
        start_after: Option<String>,
        limit: Option<u32>,
    ) -> ContributorListResponse {
        self.contract.query_contributors(start_after, limit)
    }
}

fn contributor(role: &str, share: u32, address: &str) -> ContributorMsg {
    ContributorMsg { role: String::from(role), share, address: String::from(address) }
}

#[test]
pub fn single_contributor() {
    let suite = TestSuiteBuilder::new().build();

    let resp = suite.query_contributors(None, None);

    assert_eq!(
        resp.contributors.len(),
        1,
        "expected only default contributor"
    )
}

#[test]
pub fn multiple_contributors() {
    let contributors = vec![
        ContributorMsg {
            role: String::from("drawer"),
            share: 10,
            address: String::from("drawer0000"),
        },
        ContributorMsg {
            role: String::from("biz"),
            share: 10,
            address: String::from("biz0000"),
        },
        ContributorMsg {
            role: String::from("marketer"),
            share: 10,
            address: String::from("marketer0000"),
        },
    ];

    let suite = TestSuiteBuilder::new()
        .with_contributors(contributors)
        .build();

    let resp = suite.query_contributors(None, None);
    assert_eq!(resp.contributors.len(), 4, "expected 4 contributors");
    assert_eq!(
        resp.contributors[1],
        ContributorResponse {
            role: String::from("drawer"),
            share: 10,
            address: String::from("drawer0000")
        }
    )
}

#[test]
fn contributors_are_listed_in_address_order() {
    let suite = TestSuiteBuilder::new()
        .with_contributors(vec![
            contributor("drawer", 10, "drawer0000"),
            contributor("biz", 10, "biz0000"),
            contributor("marketer", 10, "marketer0000"),
        ])
        .build();
    let resp = suite.query_contributors(None, None);
    let addresses: Vec<&str> = resp.contributors.iter().map(|c| c.address.as_str()).collect();
    assert_eq!(addresses, vec!["biz0000", "drawer0000", "marketer0000", "owner0000"]);
}

#[test]
fn duplicate_address_is_refused() {
    let result = RoyaltyContract::instantiate(InstantiateMsg {
        contributors: vec![
            contributor("a", 1, "x"),
            contributor("b", 2, "y"),
            contributor("c", 3, "x"),
            contributor("d", 4, "y"),
        ],
    });
    match result {
        Err(ContractError::DuplicateContributor { address }) => assert_eq!(address, "x"),
        Ok(_) => panic!("expected a duplicate contributor"),
    }
}

#[test]
fn empty_registry_lists_nothing() {
    let contract = RoyaltyContract::instantiate(InstantiateMsg { contributors: vec![] }).unwrap();
    assert_eq!(contract.query_contributors(None, None).contributors.len(), 0);
}

#[test]
fn start_after_skips_smaller_addresses() {
    let suite = TestSuiteBuilder::new()
        .with_contributors(vec![
            contributor("drawer", 10, "drawer0000"),
            contributor("biz", 10, "biz0000"),
        ])
        .build();
    let resp = suite.query_contributors(Some(String::from("biz0000")), None);
    let addresses: Vec<&str> = resp.contributors.iter().map(|c| c.address.as_str()).collect();
    assert_eq!(addresses, vec!["drawer0000", "owner0000"]);
    // A bound that is not a registered address works too.
    let resp = suite.query_contributors(Some(String::from("c")), None);
    assert_eq!(resp.contributors.len(), 2);
    let resp = suite.query_contributors(Some(String::from("zzz")), None);
    assert_eq!(resp.contributors.len(), 0);
}

#[test]
fn limit_defaults_to_ten_and_caps_at_thirty() {
    let many: Vec<ContributorMsg> = (0..40)
        .map(|i| contributor("r", 1, &format!("addr{:02}", i)))
        .collect();
    let contract = RoyaltyContract::instantiate(InstantiateMsg { contributors: many }).unwrap();
    assert_eq!(contract.query_contributors(None, None).contributors.len(), 10);
    assert_eq!(contract.query_contributors(None, Some(3)).contributors.len(), 3);
    assert_eq!(contract.query_contributors(None, Some(100)).contributors.len(), 30);
    assert_eq!(contract.query_contributors(None, Some(0)).contributors.len(), 0);
}

#[test]
fn next_page_continues_after_last_address() {
    let many: Vec<ContributorMsg> = (0..25)
        .rev()
        .map(|i| contributor("r", 1, &format!("addr{:02}", i)))
        .collect();
    let contract = RoyaltyContract::instantiate(InstantiateMsg { contributors: many }).unwrap();
    let mut seen: Vec<String> = Vec::new();
    let mut start_after: Option<String> = None;
    loop {
        let page = contract.query_contributors(start_after.clone(), Some(7)).contributors;
        if page.is_empty() {
            break;
        }
        start_after = Some(page.last().unwrap().address.clone());
        seen.extend(page.into_iter().map(|c| c.address));
    }
    let expected: Vec<String> = (0..25).map(|i| format!("addr{:02}", i)).collect();
    assert_eq!(seen, expected);
}

#[test]
fn order_is_by_character_code() {
    let contract = RoyaltyContract::instantiate(InstantiateMsg {
        contributors: vec![
            contributor("r", 1, "ab"),
            contributor("r", 1, "a"),
            contributor("r", 1, "B"),
            contributor("r", 1, "é"),
        ],
    })
    .unwrap();
    let addresses: Vec<String> = contract
        .query_contributors(None, None)
        .contributors
        .into_iter()
        .map(|c| c.address)
        .collect();
    assert_eq!(addresses, vec!["B", "a", "ab", "é"]);
}
