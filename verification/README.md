# vkengine

A small Vulkan game engine whose decision-making core is verified with Verus.

- `src/` — the verified library:
  - `assets.rs`: the asset registry (texture and audio states by handle, the
    path cache, pending background loads, applying load results), texture
    decoding and the 1×1 fallback texture.
  - `paths.rs`: joining a path onto the asset root, and comparing paths by
    their components.
  - `renderer/context.rs`: queue family selection, device extension and
    validation layer checks, physical device choice, instance layers and
    extensions.
  - `renderer/memory.rs`: memory type selection and upload sizes.
  - `renderer/swapchain.rs`: surface format, present mode, extent, image count
    and sharing mode of a swapchain; resize tracking.
  - `renderer/frame.rs`: the frame-in-flight ring and what a frame does after
    acquiring an image.
  - `renderer/mesh.rs`, `renderer/debug.rs`, `renderer/shadow.rs`: the cube's
    index buffer, the wireframe box table, SPIR-V words.
  - `gui.rs`: the editor state and how it answers UI messages.
- `app/` — the program around it: the winit event loop, the Vulkan calls,
  rapier physics, the hecs scene, Lua scripting, the Iced panels, file
  reading and the background asset loader, and everything computed in
  floating point (cameras, transforms, materials, frame timing).
- `tests/` — tests of the library on concrete values.
