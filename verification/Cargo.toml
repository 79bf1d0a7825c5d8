[package]
name = "cccp"
version = "0.1.0"
edition = "2021"
publish = false

[dependencies]
aes = "=0.8.4"
async-compression = { version = "=0.4.52", features = ["futures-io", "gzip"] }
async-ssh2-tokio = "=0.8.14"
base64 = "=0.21.7"
blake3 = "=1.8.7"
bytesize = "=1.3.3"
chacha20 = "=0.9.1"
cipher = "=0.4.4"
clap = { version = "=4.6.7", features = ["derive"] }
ctr = "=0.9.2"
dirs = "=5.0.1"
futures = "=0.3.34"
http-body-util = "=0.1.5"
indicatif = "=0.17.11"
kanal = "=0.1.1"
log = "=0.4.35"
nix = { version = "=0.27.1", features = ["fs"] }
octocrab = "0.34"
prost = "=0.12.6"
rand = "=0.8.8"
regex = "=1.13.1"
rpassword = "=7.5.4"
russh = "=0.51.1"
russh-sftp = "=2.4.0"
semver = "=1.0.28"
simple-logging = "=2.0.2"
tar = "=0.4.46"
tokio = { version = "=1.54.1", features = ["full"] }
whoami = "=1.6.1"
