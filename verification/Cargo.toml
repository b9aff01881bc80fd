[package]
name = "robius-keychain"
version = "0.1.0"
edition = "2021"
publish = false

[dependencies]
cfg-if = "=1.0.5"
core-foundation = "=0.10.1"
gio = "=0.22.10"
glib = "=0.22.10"
libsecret = "=0.9.0"
robius-directories = "=6.0.1"
security-framework = "=3.7.0"
windows-result = "=0.4.1"
windows = { version = "=0.62.2", features = ["Win32_Foundation", "Win32_Security_Credentials"] }
