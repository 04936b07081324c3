use std::cell::Cell;

use partition_assembly::{
    build_job_assembly, Assignment, MappingCache, PartitionManager, PartitionStrategy,
    QueryVineyard, RoutingError, StoreRegistry,
};

/// A manager that answers from a table and counts how often it is asked.
struct TableManager {
    table: Vec<(u32, u32)>,
    enumerations: Cell<usize>,
    lookups: Cell<usize>,
    refuse_enumeration: Cell<bool>,
    refuse_owner_of: Option<u32>,
}

impl TableManager {
    fn new(table: &[(u32, u32)]) -> Self {
        TableManager {
            table: table.to_vec(),
            enumerations: Cell::new(0),
            lookups: Cell::new(0),
            refuse_enumeration: Cell::new(false),
            refuse_owner_of: None,
        }
    }
}

impl PartitionManager for TableManager {
    fn partition_ids(&self) -> Option<Vec<u32>> {
        self.enumerations.set(self.enumerations.get() + 1);
        if self.refuse_enumeration.get() {
            return None;
        }
        Some(self.table.iter().map(|line| line.0).collect())
    }

    fn owner_of(&self, partition: u32) -> Option<u32> {
        self.lookups.set(self.lookups.get() + 1);
        if self.refuse_owner_of == Some(partition) {
            return None;
        }
        self.table.iter().find(|line| line.0 == partition).map(|line| line.1)
    }
}

fn example_table() -> Vec<(u32, u32)> {
    vec![(0, 1), (1, 0), (2, 1), (3, 2)]
}

fn example_strategy() -> PartitionStrategy<TableManager> {
    PartitionStrategy::new(TableManager::new(&example_table()), MappingCache::new(3), 3)
}

#[test]
fn example_scenario_routes_as_reported() {
    let mut strategy = example_strategy();
    assert_eq!(strategy.worker_for(1), Ok(0));
    assert_eq!(strategy.partitions_for(1), Ok(vec![0, 2]));
    assert_eq!(strategy.partitions_for(0), Ok(vec![1]));
    assert_eq!(strategy.partitions_for(2), Ok(vec![3]));
    assert_eq!(strategy.worker_for(9), Err(RoutingError::UnknownPartition { partition: 9 }));
    assert_eq!(strategy.partitions_for(5), Err(RoutingError::InvalidWorker { worker: 5 }));
}

#[test]
fn example_scenario_through_the_assembly() {
    let mut registry: StoreRegistry<&'static str> = StoreRegistry::new();
    let mut assembly = build_job_assembly(
        &mut registry,
        "snapshot-7",
        TableManager::new(&example_table()),
        MappingCache::new(3),
        3,
    );
    assert_eq!(registry.len(), 1);
    assert_eq!(registry.lookup(assembly.store()), Some(&"snapshot-7"));
    assert_eq!(assembly.strategy().num_servers(), 3);
    assert!(assembly.strategy().cached().is_none());
    assert_eq!(assembly.strategy_mut().worker_for(0), Ok(1));
    assert_eq!(assembly.strategy_mut().worker_for(3), Ok(2));
    assert_eq!(assembly.strategy_mut().partitions_for(1), Ok(vec![0, 2]));
    assert!(assembly.strategy().cached().is_some());
}

#[test]
fn owner_and_listing_are_inverse_on_the_example() {
    let mut strategy = example_strategy();
    for partition in 0..6u32 {
        for worker in 0..3u32 {
            let owned = strategy.worker_for(partition) == Ok(worker);
            let listed = strategy.partitions_for(worker).unwrap().contains(&partition);
            assert_eq!(owned, listed, "partition {} worker {}", partition, worker);
        }
    }
}

#[test]
fn every_worker_and_every_reported_partition_has_an_answer() {
    let mut strategy =
        PartitionStrategy::new(TableManager::new(&[(10, 0), (11, 0)]), MappingCache::new(4), 4);
    assert_eq!(strategy.partitions_for(0), Ok(vec![10, 11]));
    assert_eq!(strategy.partitions_for(1), Ok(vec![]));
    assert_eq!(strategy.partitions_for(2), Ok(vec![]));
    assert_eq!(strategy.partitions_for(3), Ok(vec![]));
    assert_eq!(strategy.partitions_for(4), Err(RoutingError::InvalidWorker { worker: 4 }));
    assert_eq!(strategy.worker_for(10), Ok(0));
    assert_eq!(strategy.worker_for(11), Ok(0));
}

#[test]
fn the_manager_is_surveyed_once() {
    let mut strategy = example_strategy();
    assert_eq!(strategy.manager().enumerations.get(), 0);
    assert_eq!(strategy.worker_for(2), Ok(1));
    assert_eq!(strategy.manager().enumerations.get(), 1);
    assert_eq!(strategy.manager().lookups.get(), 4);
    for _ in 0..5 {
        assert_eq!(strategy.worker_for(2), Ok(1));
        assert_eq!(strategy.partitions_for(1), Ok(vec![0, 2]));
        assert_eq!(strategy.worker_for(9), Err(RoutingError::UnknownPartition { partition: 9 }));
    }
    assert_eq!(strategy.manager().enumerations.get(), 1);
    assert_eq!(strategy.manager().lookups.get(), 4);
}

#[test]
fn repeated_queries_give_the_same_answers() {
    let mut strategy = example_strategy();
    let first_worker = strategy.worker_for(3);
    let first_list = strategy.partitions_for(1);
    for _ in 0..3 {
        assert_eq!(strategy.worker_for(3), first_worker);
        assert_eq!(strategy.partitions_for(1), first_list);
    }
}

#[test]
fn an_invalid_worker_is_refused_without_a_build() {
    let mut strategy = example_strategy();
    assert_eq!(strategy.partitions_for(3), Err(RoutingError::InvalidWorker { worker: 3 }));
    assert_eq!(
        strategy.partitions_for(u32::MAX),
        Err(RoutingError::InvalidWorker { worker: u32::MAX })
    );
    assert_eq!(strategy.manager().enumerations.get(), 0);
    assert!(strategy.cached().is_none());
}

#[test]
fn a_failed_enumeration_is_a_build_failure_and_is_retried() {
    let manager = TableManager::new(&example_table());
    manager.refuse_enumeration.set(true);
    let mut strategy = PartitionStrategy::new(manager, MappingCache::new(3), 3);
    assert_eq!(strategy.worker_for(1), Err(RoutingError::BuildFailure));
    assert_eq!(strategy.partitions_for(1), Err(RoutingError::BuildFailure));
    assert!(strategy.cached().is_none());
    assert_eq!(strategy.manager().enumerations.get(), 2);
    strategy.manager().refuse_enumeration.set(false);
    assert_eq!(strategy.worker_for(1), Ok(0));
    assert_eq!(strategy.manager().enumerations.get(), 3);
    assert!(strategy.cached().is_some());
}

#[test]
fn a_failed_owner_lookup_publishes_nothing() {
    let mut manager = TableManager::new(&example_table());
    manager.refuse_owner_of = Some(2);
    let mut strategy = PartitionStrategy::new(manager, MappingCache::new(3), 3);
    assert_eq!(strategy.worker_for(0), Err(RoutingError::BuildFailure));
    assert!(strategy.cached().is_none());
    assert_eq!(strategy.manager().lookups.get(), 3);
}

#[test]
fn an_owner_outside_the_cluster_is_a_configuration_error() {
    let manager = TableManager::new(&[(0, 1), (1, 3), (2, 7)]);
    let mut strategy = PartitionStrategy::new(manager, MappingCache::new(3), 3);
    let expected = RoutingError::ConfigurationError { partition: 1, worker: 3 };
    assert_eq!(strategy.worker_for(0), Err(expected));
    assert_eq!(strategy.partitions_for(1), Err(expected));
    assert!(strategy.cached().is_none());
}

#[test]
fn a_cluster_without_workers_accepts_no_owner() {
    let manager = TableManager::new(&[(0, 0)]);
    let mut strategy = PartitionStrategy::new(manager, MappingCache::new(0), 0);
    assert_eq!(
        strategy.worker_for(0),
        Err(RoutingError::ConfigurationError { partition: 0, worker: 0 })
    );
    assert_eq!(strategy.partitions_for(0), Err(RoutingError::InvalidWorker { worker: 0 }));
}

#[test]
fn a_snapshot_without_partitions_builds_an_empty_mapping() {
    let mut strategy = PartitionStrategy::new(TableManager::new(&[]), MappingCache::new(2), 2);
    assert_eq!(strategy.worker_for(0), Err(RoutingError::UnknownPartition { partition: 0 }));
    assert_eq!(strategy.partitions_for(0), Ok(vec![]));
    assert_eq!(strategy.partitions_for(1), Ok(vec![]));
    assert_eq!(strategy.cached().unwrap().partition_count(), 0);
}

#[test]
fn a_prebuilt_cache_is_used_as_it_is() {
    let mut cache = MappingCache::new(3);
    let report = vec![
        Assignment { partition: 5, worker: 2 },
        Assignment { partition: 6, worker: 2 },
    ];
    assert_eq!(cache.publish(Some(report)), Ok(()));
    let mut strategy = PartitionStrategy::new(TableManager::new(&example_table()), cache, 3);
    assert_eq!(strategy.worker_for(5), Ok(2));
    assert_eq!(strategy.worker_for(0), Err(RoutingError::UnknownPartition { partition: 0 }));
    assert_eq!(strategy.partitions_for(2), Ok(vec![5, 6]));
    assert_eq!(strategy.manager().enumerations.get(), 0);
}

#[test]
fn a_cache_of_another_cluster_size_is_stale() {
    let mut cache = MappingCache::new(8);
    let report = vec![Assignment { partition: 5, worker: 7 }];
    assert_eq!(cache.publish(Some(report)), Ok(()));
    let mut strategy = PartitionStrategy::new(TableManager::new(&example_table()), cache, 3);
    assert_eq!(strategy.num_servers(), 3);
    assert!(strategy.cached().is_none());
    assert_eq!(strategy.worker_for(5), Err(RoutingError::UnknownPartition { partition: 5 }));
    assert_eq!(strategy.worker_for(1), Ok(0));
    assert_eq!(strategy.manager().enumerations.get(), 1);
}

#[test]
fn assembling_twice_from_the_same_parts_routes_alike() {
    let mut registry: StoreRegistry<u64> = StoreRegistry::new();
    let mut first = QueryVineyard::new(
        41u64,
        TableManager::new(&example_table()),
        MappingCache::new(3),
        3,
    )
    .initialize_job_assembly(&mut registry);
    let mut second = QueryVineyard::new(
        41u64,
        TableManager::new(&example_table()),
        MappingCache::new(3),
        3,
    )
    .initialize_job_assembly(&mut registry);
    for partition in 0..6u32 {
        assert_eq!(
            first.strategy_mut().worker_for(partition),
            second.strategy_mut().worker_for(partition)
        );
    }
    for worker in 0..5u32 {
        assert_eq!(
            first.strategy_mut().partitions_for(worker),
            second.strategy_mut().partitions_for(worker)
        );
    }
    assert_eq!(registry.len(), 2);
    assert_ne!(first.store(), second.store());
    assert_eq!(registry.lookup(first.store()), Some(&41));
    assert_eq!(registry.lookup(second.store()), Some(&41));
}

#[test]
fn a_strategy_takes_a_survey_made_elsewhere() {
    let mut strategy = example_strategy();
    assert_eq!(strategy.publish(None), Err(RoutingError::BuildFailure));
    assert!(strategy.cached().is_none());
    let outside = vec![Assignment { partition: 0, worker: 3 }];
    assert_eq!(
        strategy.publish(Some(outside)),
        Err(RoutingError::ConfigurationError { partition: 0, worker: 3 })
    );
    assert!(strategy.cached().is_none());
    let report = vec![
        Assignment { partition: 7, worker: 2 },
        Assignment { partition: 8, worker: 0 },
        Assignment { partition: 7, worker: 1 },
    ];
    assert_eq!(strategy.publish(Some(report)), Ok(()));
    assert_eq!(strategy.worker_for(7), Ok(2));
    assert_eq!(strategy.partitions_for(2), Ok(vec![7]));
    assert_eq!(strategy.partitions_for(1), Ok(vec![]));
    assert_eq!(strategy.publish(Some(vec![Assignment { partition: 7, worker: 0 }])), Ok(()));
    assert_eq!(strategy.worker_for(7), Ok(2));
    assert_eq!(strategy.manager().enumerations.get(), 0);
}
