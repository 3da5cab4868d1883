use kernel_core::mem::Region;
use kernel_core::mpu::{
    configure_regions, ConfigError, CortexM3, MpuVariant, Permissions, ProtectedRegion,
};

fn rx(start: usize, size: usize) -> ProtectedRegion {
    ProtectedRegion { region: Region::new(start, size), perms: Permissions::ReadExecute }
}

fn rw(start: usize, size: usize) -> ProtectedRegion {
    ProtectedRegion { region: Region::new(start, size), perms: Permissions::ReadWrite }
}

#[test]
fn cortex_m3_unit_parameters() {
    assert_eq!(CortexM3::num_regions(), 8);
    assert_eq!(CortexM3::granularity(), 32);
}

#[test]
fn configure_rounds_outward_to_granularity() {
    let requested = vec![rx(0x1005, 40), rw(0x2000, 64)];
    let config = configure_regions(&requested, 8, 32).expect("two regions fit");
    assert_eq!(config.regions.len(), 2);
    // First region: base rounded down to 0x1000, end 0x102D rounded up to
    // 0x1040.
    assert_eq!(config.regions[0].region.start, 0x1000);
    assert_eq!(config.regions[0].region.size, 0x40);
    assert_eq!(config.regions[0].perms, Permissions::ReadExecute);
    // Second region was already aligned and stays put.
    assert_eq!(config.regions[1].region.start, 0x2000);
    assert_eq!(config.regions[1].region.size, 64);
    assert_eq!(config.regions[1].perms, Permissions::ReadWrite);
}

#[test]
fn configure_refuses_more_regions_than_the_unit_has() {
    let requested = vec![
        rx(0x1000, 32),
        rw(0x2000, 32),
        rw(0x3000, 32),
    ];
    assert!(matches!(
        configure_regions(&requested, 2, 32),
        Err(ConfigError::TooManyRegions)
    ));
    // The hardware limit of the Cortex-M3 variant is enough for these.
    assert!(configure_regions(&requested, CortexM3::num_regions(), CortexM3::granularity()).is_ok());
}

#[test]
fn region_membership() {
    let r = Region::new(100, 10);
    assert!(r.contains(100));
    assert!(r.contains(109));
    assert!(!r.contains(110));
    assert!(!r.contains(99));
    assert!(r.contains_range(100, 10));
    assert!(r.contains_range(105, 5));
    assert!(!r.contains_range(105, 6));
    assert!(r.contains_range(110, 0));
    assert!(!r.contains_range(99, 1));
}
