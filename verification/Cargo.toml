[package]
name = "flocon"
version = "0.1.0"
edition = "2021"
publish = false

[dependencies]
anyhow = "1"
async-trait = "0.1"
chrono = "=0.4.45"
clap = { version = "4", features = ["derive"] }
ctrlc = "3"
diesel = { version = "2", default-features = false, features = ["sqlite"] }
diesel_migrations = "2"
fuse-backend-rs = { version = "=0.14.0", features = ["virtiofs"] }
libc = "0.2"
r2d2 = "0.8"
r2d2_sqlite = "=0.31.0"
rusqlite = { version = "=0.37.0", features = ["blob"] }
rusqlite_migration = "=2.3.0"
sea-orm = { version = "2", default-features = false, features = ["macros", "with-chrono"] }
sea-orm-migration = { version = "2", default-features = false }
thiserror = "2"
tracing = "0.1"
tracing-subscriber = "0.3"
vhost = { version = "0.15", features = ["vhost-user-backend"] }
vhost-user-backend = "0.21"
virtio-bindings = "0.2"
virtio-queue = "0.17"
vm-memory = { version = "=0.17.1", features = ["backend-mmap", "backend-atomic"] }
vmm-sys-util = "0.15"
