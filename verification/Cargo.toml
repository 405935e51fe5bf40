[package]
name = "gv"
version = "0.1.0"
edition = "2021"
publish = false

[dependencies]
anyhow = "=1.0.104"
crossbeam-channel = "=0.5.17"
fast_image_resize = "=6.1.0"
getrandom = "=0.3.4"
image = { version = "=0.25.10", default-features = false, features = ["png", "jpeg", "bmp", "gif", "webp"] }
kamadak-exif = "=0.6.1"
memmap2 = "=0.9.12"
natord = "=1.0.9"
rayon = "=1.12.0"
serde = { version = "=1.0.229", features = ["derive"] }
sevenz-rust2 = "=0.24.2"
toml = "=1.1.8"
unrar = "=0.5.8"
windows = { version = "=0.57.0", features = ["Data_Pdf", "Foundation", "Storage", "Storage_Streams", "Win32_Foundation", "Win32_Graphics_Gdi", "Win32_Storage_FileSystem", "Win32_System_Com", "Win32_System_DataExchange", "Win32_System_LibraryLoader", "Win32_System_Memory", "Win32_System_Ole", "Win32_System_SystemInformation", "Win32_System_Threading", "Win32_UI_Controls", "Win32_UI_HiDpi", "Win32_UI_Input_KeyboardAndMouse", "Win32_UI_Shell", "Win32_UI_Shell_Common", "Win32_UI_Shell_PropertiesSystem", "Win32_UI_WindowsAndMessaging"] }
zip = { version = "=9.2.2", default-features = false, features = ["deflate"] }
