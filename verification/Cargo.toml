[package]
name = "indicator_store"
version = "0.1.0"
edition = "2021"
publish = false

[dependencies]
bigdecimal = { version = "=0.1.2", features = ["serde"] }
rand = "=0.7.3"
rand_distr = "=0.2.2"
diesel = { version = "=1.4.8", features = ["postgres", "numeric", "chrono", "uuidv07"] }
diesel-derive-enum = { version = "=1.1.2", features = ["postgres"] }
dotenv = "=0.15.0"
glob = "=0.3.4"
serde = "=1.0.229"
serde_derive = "=1.0.229"
serde_any = { version = "=0.5.0", default-features = false, features = ["json", "toml", "yaml"] }
chrono = "=0.4.45"
uuid = "=0.8.2"
