use traff_off_func::port_allocator::PortAllocator;

#[test]
fn allocates_in_ascending_order() {
    let mut a = PortAllocator::new(10000..=10002);
    assert_eq!(a.available(), 3);
    assert_eq!(a.allocate_next(), Some(10000));
    assert_eq!(a.allocate_next(), Some(10001));
    assert_eq!(a.allocate_next(), Some(10002));
    assert_eq!(a.allocate_next(), None);
}

#[test]
fn returned_ports_go_last() {
    let mut a = PortAllocator::new(1..=3);
    assert_eq!(a.allocate_next(), Some(1));
    a.deallocate(1);
    assert_eq!(a.allocate_next(), Some(2));
    assert_eq!(a.allocate_next(), Some(3));
    assert_eq!(a.allocate_next(), Some(1));
    assert_eq!(a.allocate_next(), None);
}

#[test]
fn empty_and_single_ranges() {
    let mut empty = PortAllocator::new(5..=4);
    assert_eq!(empty.available(), 0);
    assert_eq!(empty.allocate_next(), None);
    let mut one = PortAllocator::new(7..=7);
    assert_eq!(one.allocate_next(), Some(7));
    assert_eq!(one.allocate_next(), None);
    let full = PortAllocator::new(0..=u16::MAX);
    assert_eq!(full.available(), 65536);
}

#[test]
fn exhausted_range_gives_no_ports() {
    let mut r = 3u16..=3u16;
    assert_eq!(r.next(), Some(3));
    let mut a = PortAllocator::new(r);
    assert_eq!(a.allocate_next(), None);
}

#[test]
fn deallocate_into_empty_pool() {
    let mut a = PortAllocator::new(1..=0);
    a.deallocate(4242);
    assert_eq!(a.allocate_next(), Some(4242));
}

#[test]
fn project_port_range_has_2001_ports() {
    let a = PortAllocator::new(10000..=12000);
    assert_eq!(a.available(), 2001);
}

#[test]
fn free_and_handed_out_ports_partition_the_range() {
    let mut pool = PortAllocator::new(100..=104);
    let mut out: Vec<u16> = vec![];
    let script: [Option<u16>; 9] = [None, None, None, Some(101), None, None, Some(100), None, None];
    for op in script {
        match op {
            None => {
                if let Some(p) = pool.allocate_next() {
                    out.push(p);
                }
            }
            Some(p) => {
                out.retain(|&q| q != p);
                pool.deallocate(p);
            }
        }
        let mut free = vec![];
        let mut copy = PortAllocator::new(1..=0);
        while let Some(p) = pool.allocate_next() {
            free.push(p);
            copy.deallocate(p);
        }
        pool = copy;
        let mut all: Vec<u16> = free.iter().chain(out.iter()).copied().collect();
        all.sort();
        assert_eq!(all, vec![100, 101, 102, 103, 104]);
    }
}
